//! Turning a raw model answer into a set of clean command lines.

use crate::text::{
    lemma_trim_idempotent, lemma_trim_shape, string_of_range, trim, trim_bounds, trim_start,
};
use vstd::prelude::*;

verus! {

/// `s` with every backtick removed.
pub open spec fn strip_ticks(s: Seq<char>) -> Seq<char>
    decreases s.len(),
{
    if s.len() == 0 {
        s
    } else if s.last() == '`' {
        strip_ticks(s.drop_last())
    } else {
        strip_ticks(s.drop_last()).push(s.last())
    }
}

/// The pieces of `s` between newlines: `k` newlines give `k + 1` pieces.
pub open spec fn split_lines(s: Seq<char>) -> Seq<Seq<char>>
    decreases s.len(),
{
    if s.len() == 0 {
        seq![Seq::empty()]
    } else {
        let p = split_lines(s.drop_last());
        if s.last() == '\n' {
            p.push(Seq::empty())
        } else {
            p.update(p.len() - 1, p.last().push(s.last()))
        }
    }
}

/// Each line trimmed, keeping those that are not empty, in their order.
pub open spec fn keep_nonblank(lines: Seq<Seq<char>>) -> Seq<Seq<char>>
    decreases lines.len(),
{
    if lines.len() == 0 {
        Seq::empty()
    } else {
        let r = keep_nonblank(lines.drop_last());
        let t = trim(lines.last());
        if t.len() > 0 {
            r.push(t)
        } else {
            r
        }
    }
}

/// The command lines held in a raw model answer.
pub open spec fn commands_of(raw: Seq<char>) -> Seq<Seq<char>> {
    keep_nonblank(split_lines(strip_ticks(raw)))
}

/// No backtick and no newline in `s`.
pub open spec fn single_plain_line(s: Seq<char>) -> bool {
    forall|i: int| 0 <= i < s.len() ==> s[i] != '`' && s[i] != '\n'
}

/// A command line: not empty, trimmed, one line, without backticks.
pub open spec fn is_clean_command(s: Seq<char>) -> bool {
    &&& s.len() > 0
    &&& trim(s) == s
    &&& single_plain_line(s)
}

pub open spec fn strings_view(v: Seq<String>) -> Seq<Seq<char>> {
    v.map_values(|s: String| s@)
}

/// The command lines joined by the shell's `&&`, with a space on each side.
pub open spec fn join_and(cmds: Seq<Seq<char>>) -> Seq<char>
    decreases cmds.len(),
{
    if cmds.len() == 0 {
        Seq::empty()
    } else if cmds.len() == 1 {
        cmds[0]
    } else {
        join_and(cmds.drop_last()) + seq![' ', '&', '&', ' '] + cmds.last()
    }
}

/// An ordered, non-empty list of clean command lines.
pub struct CommandSet {
    commands: Vec<String>,
}

impl View for CommandSet {
    type V = Seq<Seq<char>>;

    closed spec fn view(&self) -> Seq<Seq<char>> {
        strings_view(self.commands@)
    }
}

impl CommandSet {
    pub open spec fn wf(&self) -> bool {
        &&& self@.len() > 0
        &&& forall|i: int| 0 <= i < self@.len() ==> is_clean_command(#[trigger] self@[i])
    }

    /// The number of command lines.
    pub fn len(&self) -> (r: usize)
        ensures
            r == self@.len(),
    {
        self.commands.len()
    }

    /// The command line at `i`.
    pub fn get(&self, i: usize) -> (r: &String)
        requires
            i < self@.len(),
        ensures
            r@ == self@[i as int],
    {
        &self.commands[i]
    }

    /// The command lines, in order.
    pub fn lines(&self) -> (r: &Vec<String>)
        ensures
            strings_view(r@) == self@,
    {
        &self.commands
    }

    /// All command lines as one shell line, joined by ` && `.
    pub fn joined(&self) -> (r: String)
        ensures
            r@ == join_and(self@),
    {
        let n = self.commands.len();
        if n == 0 {
            return String::new();
        }
        let mut r = self.commands[0].clone();
        let ghost v = self@;
        assert(v.subrange(0, 1).drop_last() =~= Seq::<Seq<char>>::empty());
        let mut i: usize = 1;
        while i < n
            invariant
                v == self@,
                n == v.len(),
                1 <= i <= n,
                r@ == join_and(v.subrange(0, i as int)),
            decreases n - i,
        {
            proof {
                reveal_strlit(" && ");
            }
            r.append(" && ");
            r.append(self.commands[i].as_str());
            assert(v.subrange(0, i + 1).drop_last() =~= v.subrange(0, i as int));
            i = i + 1;
        }
        assert(v.subrange(0, n as int) =~= v);
        r
    }
}

/// Why a raw answer gave no command set.
#[derive(Debug, Clone, Copy, PartialEq, Eq, Structural)]
pub enum SanitizeError {
    /// Nothing but backticks and whitespace was left.
    EmptyCommandSet,
}

proof fn lemma_strip_has_no_ticks(s: Seq<char>)
    ensures
        forall|i: int| 0 <= i < strip_ticks(s).len() ==> strip_ticks(s)[i] != '`',
    decreases s.len(),
{
    if s.len() > 0 {
        let r = strip_ticks(s.drop_last());
        lemma_strip_has_no_ticks(s.drop_last());
        if s.last() != '`' {
            assert forall|i: int| 0 <= i < r.push(s.last()).len() implies r.push(s.last())[i] != '`' by {
                if i < r.len() {
                    assert(r.push(s.last())[i] == r[i]);
                }
            }
        }
    }
}

proof fn lemma_split_plain(s: Seq<char>)
    requires
        forall|i: int| 0 <= i < s.len() ==> s[i] != '`',
    ensures
        split_lines(s).len() >= 1,
        forall|i: int| 0 <= i < split_lines(s).len() ==> single_plain_line(#[trigger] split_lines(s)[i]),
    decreases s.len(),
{
    if s.len() > 0 {
        let d = s.drop_last();
        lemma_split_plain(d);
        let p = split_lines(d);
        if s.last() != '\n' {
            let l = p.last().push(s.last());
            assert(single_plain_line(l)) by {
                assert(single_plain_line(p[p.len() - 1]));
            }
            let q = p.update(p.len() - 1, l);
            assert forall|i: int| 0 <= i < q.len() implies single_plain_line(#[trigger] q[i]) by {
                if i < p.len() - 1 {
                    assert(q[i] == p[i]);
                }
            }
        } else {
            let q = p.push(Seq::empty());
            assert forall|i: int| 0 <= i < q.len() implies single_plain_line(#[trigger] q[i]) by {
                if i < p.len() {
                    assert(q[i] == p[i]);
                }
            }
        }
    }
}

proof fn lemma_trim_plain(s: Seq<char>)
    requires
        single_plain_line(s),
    ensures
        single_plain_line(trim(s)),
{
    lemma_trim_shape(s);
    assert forall|i: int| 0 <= i < trim(s).len() implies trim(s)[i] != '`' && trim(s)[i] != '\n' by {
        let a = s.len() - trim_start(s).len();
        assert(trim(s)[i] == s[a + i]);
    }
}

proof fn lemma_keep_nonblank_clean(lines: Seq<Seq<char>>)
    requires
        forall|i: int| 0 <= i < lines.len() ==> single_plain_line(#[trigger] lines[i]),
    ensures
        forall|i: int|
            0 <= i < keep_nonblank(lines).len() ==> is_clean_command(#[trigger] keep_nonblank(lines)[i]),
    decreases lines.len(),
{
    if lines.len() > 0 {
        let d = lines.drop_last();
        assert forall|i: int| 0 <= i < d.len() implies single_plain_line(#[trigger] d[i]) by {
            assert(d[i] == lines[i]);
        }
        lemma_keep_nonblank_clean(d);
        let t = trim(lines.last());
        assert(single_plain_line(lines[lines.len() - 1]));
        lemma_trim_plain(lines.last());
        lemma_trim_idempotent(lines.last());
        let r = keep_nonblank(d);
        if t.len() > 0 {
            assert forall|i: int| 0 <= i < r.push(t).len() implies is_clean_command(#[trigger] r.push(t)[i]) by {
                if i < r.len() {
                    assert(r.push(t)[i] == r[i]);
                }
            }
        }
    }
}

/// Every entry of `commands_of(raw)` is a clean command line: not empty,
/// trimmed, one line and free of backticks.
pub proof fn lemma_commands_are_clean(raw: Seq<char>)
    ensures
        forall|i: int|
            0 <= i < commands_of(raw).len() ==> is_clean_command(#[trigger] commands_of(raw)[i]),
{
    lemma_strip_has_no_ticks(raw);
    lemma_split_plain(strip_ticks(raw));
    lemma_keep_nonblank_clean(split_lines(strip_ticks(raw)));
}

proof fn lemma_strip_without_ticks(s: Seq<char>)
    requires
        forall|i: int| 0 <= i < s.len() ==> s[i] != '`',
    ensures
        strip_ticks(s) == s,
    decreases s.len(),
{
    if s.len() > 0 {
        lemma_strip_without_ticks(s.drop_last());
        assert(s.drop_last().push(s.last()) =~= s);
    }
}

proof fn lemma_split_single_line(s: Seq<char>)
    requires
        single_plain_line(s),
    ensures
        split_lines(s) == seq![s],
    decreases s.len(),
{
    if s.len() > 0 {
        let d = s.drop_last();
        assert(single_plain_line(d)) by {
            assert forall|i: int| 0 <= i < d.len() implies d[i] != '`' && d[i] != '\n' by {
                assert(d[i] == s[i]);
            }
        }
        lemma_split_single_line(d);
        assert(s[s.len() - 1] != '\n');
        assert(d.push(s.last()) =~= s);
        assert(seq![d].update(0, d.push(s.last())) =~= seq![s]);
    } else {
        assert(s =~= Seq::<char>::empty());
    }
}

/// A line with no backtick, no newline and something besides whitespace
/// sanitizes to the one command that is its trimmed form; sanitizing that
/// command again gives it back unchanged.
pub proof fn lemma_clean_line_sanitizes_to_itself(s: Seq<char>)
    requires
        single_plain_line(s),
        trim(s).len() > 0,
    ensures
        commands_of(s) == seq![trim(s)],
        commands_of(trim(s)) == seq![trim(s)],
{
    lemma_strip_without_ticks(s);
    lemma_split_single_line(s);
    let t = trim(s);
    assert(seq![s].drop_last() =~= Seq::<Seq<char>>::empty());
    assert(seq![s].last() == s);
    assert(keep_nonblank(Seq::<Seq<char>>::empty()) == Seq::<Seq<char>>::empty());
    assert(seq![t] =~= Seq::<Seq<char>>::empty().push(t));
    lemma_trim_plain(s);
    lemma_trim_idempotent(s);
    lemma_strip_without_ticks(t);
    lemma_split_single_line(t);
    assert(seq![t].drop_last() =~= Seq::<Seq<char>>::empty());
    assert(seq![t].last() == t);
}

proof fn lemma_keep_nonblank_is_filter(lines: Seq<Seq<char>>)
    ensures
        keep_nonblank(lines) == lines.map_values(|l: Seq<char>| trim(l)).filter(
            |t: Seq<char>| t.len() > 0,
        ),
    decreases lines.len(),
{
    reveal(Seq::filter);
    if lines.len() > 0 {
        lemma_keep_nonblank_is_filter(lines.drop_last());
        let m = lines.map_values(|l: Seq<char>| trim(l));
        assert(m.drop_last() =~= lines.drop_last().map_values(|l: Seq<char>| trim(l)));
        assert(m.last() == trim(lines.last()));
    } else {
        assert(lines.map_values(|l: Seq<char>| trim(l)) =~= Seq::<Seq<char>>::empty());
    }
}

/// Sanitizing keeps exactly the lines of the backtick-free text that are
/// not blank, each trimmed, in their original order; so `N` such lines give
/// `N` commands, and each is a clean command line.
pub proof fn lemma_sanitize_keeps_nonblank_lines(raw: Seq<char>)
    ensures
        commands_of(raw) == split_lines(strip_ticks(raw)).map_values(|l: Seq<char>| trim(l)).filter(
            |t: Seq<char>| t.len() > 0,
        ),
        forall|i: int|
            0 <= i < commands_of(raw).len() ==> is_clean_command(#[trigger] commands_of(raw)[i]),
{
    lemma_keep_nonblank_is_filter(split_lines(strip_ticks(raw)));
    lemma_commands_are_clean(raw);
}

/// An answer with no command line has no well-formed command set, so no
/// session can be started on it.
pub proof fn lemma_empty_answer_has_no_command_set(raw: Seq<char>, cs: CommandSet)
    requires
        commands_of(raw).len() == 0,
        cs@ == commands_of(raw),
    ensures
        !cs.wf(),
{
}

/// Removes every backtick from `raw`, splits it into lines, trims each line
/// and keeps the non-empty ones, in order.
pub fn sanitize(raw: &str) -> (r: Result<CommandSet, SanitizeError>)
    ensures
        r is Ok <==> commands_of(raw@).len() > 0,
        r matches Ok(cs) ==> cs.wf() && cs@ == commands_of(raw@),
        r matches Err(e) ==> e == SanitizeError::EmptyCommandSet,
{
    let mut out: Vec<String> = Vec::new();
    let mut cur: Vec<char> = Vec::new();
    let ghost mut done: Seq<Seq<char>> = Seq::empty();
    assert(raw@.take(0) =~= Seq::<char>::empty());
    for c in it: raw.chars()
        invariant
            it.seq() == raw@,
            split_lines(strip_ticks(raw@.take(it.index() as int))) == done.push(cur@),
            strings_view(out@) == keep_nonblank(done),
    {
        let ghost k = it.index() as int;
        let ghost p = raw@.take(k);
        assert(raw@.take(k + 1).drop_last() =~= p);
        if c == '`' {
        } else if c == '\n' {
            assert(strip_ticks(p).push(c).drop_last() =~= strip_ticks(p));
            let (lo, hi) = trim_bounds(&cur);
            proof {
                assert(done.push(cur@).drop_last() =~= done);
                done = done.push(cur@);
            }
            if lo < hi {
                out.push(string_of_range(&cur, lo, hi));
            }
            assert(strings_view(out@) =~= keep_nonblank(done));
            cur = Vec::new();
        } else {
            assert(strip_ticks(p).push(c).drop_last() =~= strip_ticks(p));
            cur.push(c);
            assert(done.push(cur@.drop_last()).update(done.len() as int, cur@) =~= done.push(cur@));
        }
    }
    assert(raw@.take(raw@.len() as int) =~= raw@);
    let (lo, hi) = trim_bounds(&cur);
    let ghost lines = done.push(cur@);
    assert(lines.drop_last() =~= done);
    if lo < hi {
        out.push(string_of_range(&cur, lo, hi));
    }
    assert(strings_view(out@) =~= keep_nonblank(lines));
    if out.len() == 0 {
        Err(SanitizeError::EmptyCommandSet)
    } else {
        let cs = CommandSet { commands: out };
        proof {
            lemma_commands_are_clean(raw@);
        }
        Ok(cs)
    }
}

} // verus!
