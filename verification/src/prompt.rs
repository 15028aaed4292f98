//! The yes/no prompt for trusting hooks: its text and how an answer is read.

use vstd::prelude::*;
use crate::error::Error;
use crate::text::{ascii_lowercase, ascii_lowercase_chars, chars_eq_str, from_chars, push_str, to_chars, trim, trim_chars};

verus! {

/// An answer says yes when, trimmed and in lowercase, it is `y` or `yes`.
pub open spec fn affirmative(input: Seq<char>) -> bool {
    let a = ascii_lowercase(trim(input));
    a == "y"@ || a == "yes"@
}

/// Whether an answer to a yes/no prompt says yes.
pub fn is_affirmative(input: &str) -> (r: bool)
    ensures
        r == affirmative(input@),
{
    let a = ascii_lowercase_chars(&trim_chars(&to_chars(input)));
    chars_eq_str(&a, "y") || chars_eq_str(&a, "yes")
}

/// The question asked before trusting the hooks of `repo_root`, line by
/// line; the last line is the prompt itself.
pub fn trust_prompt_lines(repo_root: &str) -> (r: Vec<String>)
    ensures
        r@.len() == 3,
        r@[0]@ == "Trust these hooks for "@ + repo_root@ + "?"@,
        r@[1]@ == "Once trusted, hooks will run automatically on future `gwtx add/remove` commands"@,
        r@[2]@ == "Proceed? [y/N]: "@,
{
    let mut first = to_chars("Trust these hooks for ");
    push_str(&mut first, repo_root);
    push_str(&mut first, "?");
    let mut out: Vec<String> = Vec::new();
    out.push(from_chars(&first));
    out.push("Once trusted, hooks will run automatically on future `gwtx add/remove` commands".to_owned());
    out.push("Proceed? [y/N]: ".to_owned());
    out
}

/// The error for a terminal that cannot be opened: running without one
/// (no such device, no controlling terminal, not a terminal) is
/// non-interactive use; anything else is reported with its cause.
pub fn tty_open_error(no_terminal: bool, cause: &str) -> (r: Error)
    ensures
        no_terminal ==> r matches Error::NonInteractive,
        !no_terminal ==> (r matches Error::Internal(m) && m@ == "Failed to open /dev/tty: "@ + cause@),
{
    if no_terminal {
        Error::NonInteractive
    } else {
        let mut m = to_chars("Failed to open /dev/tty: ");
        push_str(&mut m, cause);
        Error::Internal(from_chars(&m))
    }
}

/// Surrounding whitespace and letter case do not change an answer.
pub proof fn law_answer_ignores_case_and_space(input: Seq<char>)
    ensures
        affirmative(input) == affirmative(trim(input)),
{
    lemma_trim_idempotent(input);
}

proof fn lemma_trim_idempotent(s: Seq<char>)
    ensures
        trim(trim(s)) == trim(s),
{
    crate::text::lemma_trim_twice(s);
}

} // verus!
