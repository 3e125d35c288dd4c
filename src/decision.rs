//! Reading the user's choice from one line of console input.

use crate::text::{chars_of, trim, trim_bounds};
use vstd::prelude::*;

verus! {

/// The lower-case form of a string, as `str::to_lowercase` gives it.
pub uninterp spec fn lowercase_of(s: Seq<char>) -> Seq<char>;

/// Relies on `str::to_lowercase`: the result depends on the characters
/// alone, and an empty string stays empty.
#[verifier::external_body]
fn lowercase(s: &str) -> (r: String)
    ensures
        r@ == lowercase_of(s@),
        s@.len() == 0 ==> r@.len() == 0,
{
    s.to_lowercase()
}

/// What the user asked for at the menu.
#[derive(Debug, Clone, Copy, PartialEq, Eq, Structural)]
pub enum UserDecision {
    /// `c`: put the commands on the clipboard.
    Copy,
    /// `e`: run the commands.
    Execute,
    /// `q`: leave without doing anything.
    Quit,
    /// Anything else.
    Invalid,
}

/// The decision that an already lower-cased input line stands for: its
/// trimmed form must be exactly one of the menu letters.
pub open spec fn decision_of(folded: Seq<char>) -> UserDecision {
    let t = trim(folded);
    if t == seq!['c'] {
        UserDecision::Copy
    } else if t == seq!['e'] {
        UserDecision::Execute
    } else if t == seq!['q'] {
        UserDecision::Quit
    } else {
        UserDecision::Invalid
    }
}

impl UserDecision {
    /// The decision for an input line that is already lower-cased.
    pub fn from_folded(folded: &str) -> (r: UserDecision)
        ensures
            r == decision_of(folded@),
    {
        let v = chars_of(folded);
        let (lo, hi) = trim_bounds(&v);
        let ghost t = v@.subrange(lo as int, hi as int);
        if hi - lo != 1 {
            assert(t != seq!['c'] && t != seq!['e'] && t != seq!['q']) by {
                assert(seq!['c'].len() == 1 && seq!['e'].len() == 1 && seq!['q'].len() == 1);
            }
            return UserDecision::Invalid;
        }
        let c = v[lo];
        assert(t =~= seq![c]);
        assert(trim(folded@) == seq![c]);
        if c == 'c' {
            assert(decision_of(folded@) == UserDecision::Copy);
            UserDecision::Copy
        } else if c == 'e' {
            assert(seq![c] != seq!['c']) by {
                assert(seq!['c'][0] == 'c');
            }
            assert(decision_of(folded@) == UserDecision::Execute);
            UserDecision::Execute
        } else if c == 'q' {
            assert(seq![c] != seq!['c'] && seq![c] != seq!['e']) by {
                assert(seq!['c'][0] == 'c' && seq!['e'][0] == 'e');
            }
            UserDecision::Quit
        } else {
            assert(seq![c] != seq!['c'] && seq![c] != seq!['e'] && seq![c] != seq!['q']) by {
                assert(seq!['c'][0] == 'c' && seq!['e'][0] == 'e' && seq!['q'][0] == 'q');
            }
            UserDecision::Invalid
        }
    }

    /// The decision for a raw input line: lower-cased, then trimmed, then
    /// matched against the menu letters.
    pub fn parse(line: &str) -> (r: UserDecision)
        ensures
            r == decision_of(lowercase_of(line@)),
    {
        let folded = lowercase(line);
        UserDecision::from_folded(folded.as_str())
    }
}

} // verus!
