//! How a POSIX shell and PowerShell read back a quoted word.
//!
//! These are models of the shells' quoting rules, used to state what the
//! quoting functions of the library guarantee: that the word they produce is
//! read back as exactly the text that was quoted.

use vstd::prelude::*;
use crate::text::replace_all;

verus! {

/// `c` put in front of a word that was read, if one was read.
pub open spec fn prepend(c: char, w: Option<Seq<char>>) -> Option<Seq<char>> {
    match w {
        Some(x) => Some(seq![c] + x),
        None => None,
    }
}

/// `s` put in front of a word that was read, if one was read.
pub open spec fn prepend_all(s: Seq<char>, w: Option<Seq<char>>) -> Option<Seq<char>> {
    match w {
        Some(x) => Some(s + x),
        None => None,
    }
}

/// Characters that a POSIX shell treats specially when they stand unquoted:
/// blanks and newlines split words, the rest start expansions, redirections,
/// pipelines, globs, comments or quoting.
pub open spec fn sh_special(c: char) -> bool {
    c == ' ' || c == '\t' || c == '\n' || c == '|' || c == '&' || c == ';' || c == '<' || c == '>'
        || c == '(' || c == ')' || c == '$' || c == '`' || c == '\\' || c == '"' || c == '\''
        || c == '*' || c == '?' || c == '[' || c == '#' || c == '~' || c == '=' || c == '%'
        || c == '{' || c == '}'
}

/// The literal text of `w` read as one POSIX shell word, from outside any
/// quotes: `None` where the word ends in an open quote or holds a character
/// that the shell would act on.
pub open spec fn sh_read(w: Seq<char>) -> Option<Seq<char>>
    decreases w.len(), 1int,
{
    if w.len() == 0 {
        Some(seq![])
    } else if w[0] == '\'' {
        sh_read_single(w.drop_first())
    } else if w[0] == '"' {
        sh_read_double(w.drop_first())
    } else if w[0] == '\\' {
        if w.len() >= 2 && w[1] != '\n' {
            prepend(w[1], sh_read(w.skip(2)))
        } else {
            None
        }
    } else if sh_special(w[0]) {
        None
    } else {
        prepend(w[0], sh_read(w.drop_first()))
    }
}

/// Reading inside single quotes: every character is literal up to the next
/// single quote.
pub open spec fn sh_read_single(w: Seq<char>) -> Option<Seq<char>>
    decreases w.len(), 0int,
{
    if w.len() == 0 {
        None
    } else if w[0] == '\'' {
        sh_read(w.drop_first())
    } else {
        prepend(w[0], sh_read_single(w.drop_first()))
    }
}

/// Reading inside double quotes: characters are literal up to the closing
/// double quote, except those that start an expansion or an escape.
pub open spec fn sh_read_double(w: Seq<char>) -> Option<Seq<char>>
    decreases w.len(), 0int,
{
    if w.len() == 0 {
        None
    } else if w[0] == '"' {
        sh_read(w.drop_first())
    } else if w[0] == '$' || w[0] == '`' || w[0] == '\\' {
        None
    } else {
        prepend(w[0], sh_read_double(w.drop_first()))
    }
}

/// The characters that PowerShell takes for a single quote: the ASCII one
/// and the four typographic ones.
pub open spec fn pwsh_quote_char(c: char) -> bool {
    c == '\'' || c == '\u{2018}' || c == '\u{2019}' || c == '\u{201A}' || c == '\u{201B}'
}

/// The literal text of `w` read as a PowerShell verbatim string, from just
/// after its opening quote: a doubled quote stands for one, a single one
/// closes the string, which must end the word.
pub open spec fn pwsh_read_verbatim(w: Seq<char>) -> Option<Seq<char>>
    decreases w.len(),
{
    if w.len() == 0 {
        None
    } else if pwsh_quote_char(w[0]) {
        if w.len() >= 2 && pwsh_quote_char(w[1]) {
            prepend(w[1], pwsh_read_verbatim(w.skip(2)))
        } else if w.len() == 1 {
            Some(seq![])
        } else {
            None
        }
    } else {
        prepend(w[0], pwsh_read_verbatim(w.drop_first()))
    }
}

/// The literal text of a PowerShell word that is one verbatim string.
pub open spec fn pwsh_read(w: Seq<char>) -> Option<Seq<char>> {
    if w.len() > 0 && pwsh_quote_char(w[0]) {
        pwsh_read_verbatim(w.drop_first())
    } else {
        None
    }
}

/// What `str::replace` with a one-character pattern does to the first
/// character of a non-empty text.
pub proof fn lemma_replace_single_step(s: Seq<char>, c: char, rep: Seq<char>)
    requires
        s.len() > 0,
    ensures
        replace_all(s, seq![c], rep) == (if s[0] == c {
            rep
        } else {
            seq![s[0]]
        }) + replace_all(s.drop_first(), seq![c], rep),
{
    let pat = seq![c];
    if s[0] == c {
        assert(s.take(1) =~= pat);
        assert(s.skip(1) =~= s.drop_first());
    } else {
        assert(s.take(1)[0] != pat[0]);
        assert(s.take(1) != pat);
    }
}

} // verus!
