//! What is asked of the completion provider, and what is taken from its answer.

use crate::text::push_char;
use vstd::prelude::*;

verus! {

/// The model that is asked for a command.
pub const MODEL: &'static str = "gpt-4o-mini";

/// The fixed instruction sent ahead of the user's request.
pub const SYSTEM_PROMPT: &'static str = "Generate a command to do the given action in the terminal. \
Only put the command inside ``` and don't put sudo in the command. \
Do not put bash or sh at the beginning of the command. \
For example, if you want to generate a command to list all files in the current directory, you would put `ls`.";

/// The file, under the user's home directory, that holds the API key.
pub const KEY_FILE_NAME: &'static str = "/.cmd.config";

/// One completion request: model, fixed instruction, and the user's words.
pub struct CompletionRequest {
    pub model: String,
    pub system: String,
    pub user: String,
}

impl CompletionRequest {
    /// The request for the action the user described.
    pub fn for_action(action: String) -> (r: CompletionRequest)
        ensures
            r.model@ == MODEL@,
            r.system@ == SYSTEM_PROMPT@,
            r.user == action,
    {
        CompletionRequest {
            model: String::from_str(MODEL),
            system: String::from_str(SYSTEM_PROMPT),
            user: action,
        }
    }
}

/// Why a provider's answer gave no raw completion.
#[derive(Debug, Clone, Copy, PartialEq, Eq, Structural)]
pub enum CompletionError {
    /// The answer held no choice at all.
    NoChoices,
}

/// The raw completion: the text of the first choice, empty where that
/// choice has no text.
pub fn raw_completion(choices: &Vec<Option<String>>) -> (r: Result<String, CompletionError>)
    ensures
        r is Err <==> choices@.len() == 0,
        r matches Err(e) ==> e == CompletionError::NoChoices,
        r matches Ok(s) ==> s@ == match choices@[0] {
            Some(t) => t@,
            None => Seq::empty(),
        },
{
    if choices.len() == 0 {
        return Err(CompletionError::NoChoices);
    }
    match &choices[0] {
        Some(t) => Ok(t.clone()),
        None => Ok(String::new()),
    }
}

/// The path of the key file under the home directory `home`.
pub fn key_file_path(home: &str) -> (r: String)
    ensures
        r@ == home@ + KEY_FILE_NAME@,
{
    let mut r = String::from_str(home);
    r.append(KEY_FILE_NAME);
    r
}

/// `n` stars, to show in place of a key of that length.
pub fn masked_key(n: usize) -> (r: String)
    ensures
        r@ == Seq::new(n as nat, |_i: int| '*'),
{
    let mut r = String::new();
    let mut i: usize = 0;
    while i < n
        invariant
            i <= n,
            r@ == Seq::new(i as nat, |_i: int| '*'),
        decreases n - i,
    {
        push_char(&mut r, '*');
        assert(r@ =~= Seq::new((i + 1) as nat, |_i: int| '*'));
        i = i + 1;
    }
    r
}

} // verus!
