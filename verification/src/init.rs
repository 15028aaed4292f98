//! Shell integration scripts: the one-line stub that a shell's rc file
//! evaluates, and the full script with the executable's path filled in.

use vstd::prelude::*;
use crate::error::Error;
use crate::quoting::{
    lemma_replace_single_step, prepend, prepend_all, pwsh_quote_char, pwsh_read,
    pwsh_read_verbatim, sh_read, sh_read_double, sh_read_single,
};
use crate::text::{
    contains_char, from_chars, push_all, push_str, replace_all, replace_chars, to_chars,
};

verus! {

/// The placeholder for the executable's path in the full scripts.
pub const KABU_PATH_PLACEHOLDER: &'static str = "::KABU::";

/// The shells that have an integration script.
#[derive(Debug, Clone, Copy, PartialEq, Eq, Structural)]
pub enum InitShell {
    Bash,
    Zsh,
    Fish,
    PowerShell,
    Elvish,
}

/// The text of `s` in POSIX single quotes, each single quote inside written
/// as `'"'"'` (end quote, a double-quoted quote, start quote).
pub open spec fn posix_quoted(s: Seq<char>) -> Seq<char> {
    "'"@ + replace_all(s, "'"@, "'\"'\"'"@) + "'"@
}

/// The text of `s` as a PowerShell verbatim string: single quotes around it,
/// each single quote inside doubled.
pub open spec fn pwsh_quoted(s: Seq<char>) -> Seq<char> {
    "'"@ + replace_all(s, "'"@, "''"@) + "'"@
}

/// `str::replace` with a one-character pattern, extended by one character.
proof fn lemma_replace_single_push(s: Seq<char>, c: char, rep: Seq<char>, x: char)
    ensures
        replace_all(s.push(x), seq![c], rep) == replace_all(s, seq![c], rep) + (if x == c {
            rep
        } else {
            seq![x]
        }),
    decreases s.len(),
{
    let step = if x == c {
        rep
    } else {
        seq![x]
    };
    if s.len() == 0 {
        lemma_replace_single_step(s.push(x), c, rep);
        assert(s.push(x).drop_first() =~= s);
        assert(replace_all(s, seq![c], rep) == s);
        assert(s + step =~= step);
        assert(step + s =~= step);
    } else {
        lemma_replace_single_step(s.push(x), c, rep);
        lemma_replace_single_step(s, c, rep);
        assert(s.push(x).drop_first() =~= s.drop_first().push(x));
        lemma_replace_single_push(s.drop_first(), c, rep, x);
        let head = if s[0] == c {
            rep
        } else {
            seq![s[0]]
        };
        assert(head + (replace_all(s.drop_first(), seq![c], rep) + step) =~= (head + replace_all(
            s.drop_first(),
            seq![c],
            rep,
        )) + step);
    }
}

/// `str::replace` with a one-character pattern leaves a text without that
/// character unchanged.
proof fn lemma_replace_absent(s: Seq<char>, c: char, rep: Seq<char>)
    requires
        !s.contains(c),
    ensures
        replace_all(s, seq![c], rep) == s,
    decreases s.len(),
{
    if s.len() > 0 {
        lemma_replace_single_step(s, c, rep);
        assert(s[0] != c);
        assert(!s.drop_first().contains(c)) by {
            if s.drop_first().contains(c) {
                let k = choose|k: int| 0 <= k < s.drop_first().len() && s.drop_first()[k] == c;
                assert(s[k + 1] == c);
            }
        }
        lemma_replace_absent(s.drop_first(), c, rep);
        assert(seq![s[0]] + s.drop_first() =~= s);
    }
}

/// Quote a path for POSIX shells.
pub fn posix_quote(input: &str) -> (r: String)
    ensures
        r@ == posix_quoted(input@),
{
    proof {
        reveal_strlit("'");
        reveal_strlit("''");
        reveal_strlit("'\"'\"'");
    }
    let cs = to_chars(input);
    if cs.len() == 0 {
        proof {
            assert(replace_all(input@, "'"@, "'\"'\"'"@) == input@);
            assert(posix_quoted(input@) =~= "''"@);
        }
        return from_chars(&to_chars("''"));
    }
    if !contains_char(&cs, '\'') {
        proof {
            assert("'"@ =~= seq!['\'']);
            lemma_replace_absent(input@, '\'', "'\"'\"'"@);
        }
        let mut out = to_chars("'");
        push_all(&mut out, &cs);
        push_str(&mut out, "'");
        return from_chars(&out);
    }
    let mut out: Vec<char> = Vec::new();
    out.push('\'');
    let mut i: usize = 0;
    while i < cs.len()
        invariant
            i <= cs.len(),
            cs@ == input@,
            out@ == seq!['\''] + replace_all(cs@.take(i as int), seq!['\''], "'\"'\"'"@),
        decreases cs.len() - i,
    {
        let ch = cs[i];
        proof {
            assert(cs@.take(i + 1) =~= cs@.take(i as int).push(ch));
            lemma_replace_single_push(cs@.take(i as int), '\'', "'\"'\"'"@, ch);
        }
        if ch == '\'' {
            push_str(&mut out, "'\"'\"'");
        } else {
            out.push(ch);
        }
        i = i + 1;
    }
    out.push('\'');
    proof {
        assert(cs@.take(cs@.len() as int) =~= cs@);
        assert("'"@ =~= seq!['\'']);
    }
    from_chars(&out)
}

/// Quote a path for PowerShell.
pub fn pwsh_quote(input: &str) -> (r: String)
    ensures
        r@ == pwsh_quoted(input@),
{
    proof {
        reveal_strlit("'");
    }
    let body = replace_chars(&to_chars(input), &to_chars("'"), &to_chars("''"));
    let mut out = to_chars("'");
    push_all(&mut out, &body);
    push_str(&mut out, "'");
    from_chars(&out)
}

/// Inside single quotes, the text of `s` as `posix_quote` writes it,
/// followed by the closing quote, reads back as `s`, and reading goes on
/// with `tail`.
proof fn lemma_posix_body(s: Seq<char>, tail: Seq<char>)
    ensures
        sh_read_single(replace_all(s, "'"@, "'\"'\"'"@) + "'"@ + tail) == prepend_all(s, sh_read(tail)),
    decreases s.len(),
{
    reveal_strlit("'");
    reveal_strlit("'\"'\"'");
    let q = "'"@;
    let rep = "'\"'\"'"@;
    assert(q =~= seq!['\'']);
    let w = replace_all(s, q, rep) + q + tail;
    if s.len() == 0 {
        assert(replace_all(s, q, rep) == s);
        assert(w =~= seq!['\''] + tail);
        assert(w.drop_first() =~= tail);
        match sh_read(tail) {
            Some(x) => {
                assert(s + x =~= x);
            },
            None => {},
        }
    } else {
        lemma_replace_single_step(s, '\'', rep);
        lemma_posix_body(s.drop_first(), tail);
        let rest = replace_all(s.drop_first(), q, rep) + q + tail;
        if s[0] == '\'' {
            assert(w =~= seq!['\'', '"', '\'', '"', '\''] + rest);
            let w1 = w.drop_first();
            assert(w1 =~= seq!['"', '\'', '"', '\''] + rest);
            let w2 = w1.drop_first();
            assert(w2 =~= seq!['\'', '"', '\''] + rest);
            let w3 = w2.drop_first();
            assert(w3 =~= seq!['"', '\''] + rest);
            let w4 = w3.drop_first();
            assert(w4 =~= seq!['\''] + rest);
            assert(w4.drop_first() =~= rest);
            assert(sh_read_single(w) == sh_read(w1));
            assert(sh_read(w1) == sh_read_double(w2));
            assert(sh_read_double(w2) == prepend('\'', sh_read_double(w3)));
            assert(sh_read_double(w3) == sh_read(w4));
            assert(sh_read(w4) == sh_read_single(rest));
        } else {
            assert(w =~= seq![s[0]] + rest);
            assert(w.drop_first() =~= rest);
        }
        match sh_read(tail) {
            Some(x) => {
                assert(seq![s[0]] + (s.drop_first() + x) =~= s + x);
            },
            None => {},
        }
    }
}

/// A path quoted by `posix_quote` is read back by a POSIX shell as exactly
/// that path, whatever characters it holds.
pub proof fn law_posix_quote_reads_back(s: Seq<char>)
    ensures
        sh_read(posix_quoted(s)) == Some(s),
{
    reveal_strlit("'");
    let body = replace_all(s, "'"@, "'\"'\"'"@);
    lemma_posix_body(s, seq![]);
    assert(posix_quoted(s) =~= seq!['\''] + (body + "'"@ + seq![]));
    assert(posix_quoted(s).drop_first() =~= body + "'"@ + seq![]);
    assert(sh_read(seq![]) == Some(Seq::<char>::empty()));
    assert(s + seq![] =~= s);
}

/// The text of `s` as `pwsh_quote` writes it, after the opening quote, reads
/// back as `s`.
proof fn lemma_pwsh_body(s: Seq<char>)
    requires
        forall|i: int| 0 <= i < s.len() ==> !pwsh_quote_char(#[trigger] s[i]) || s[i] == '\'',
    ensures
        pwsh_read_verbatim(replace_all(s, "'"@, "''"@) + "'"@) == Some(s),
    decreases s.len(),
{
    reveal_strlit("'");
    reveal_strlit("''");
    let q = "'"@;
    let rep = "''"@;
    assert(q =~= seq!['\'']);
    let w = replace_all(s, q, rep) + q;
    if s.len() == 0 {
        assert(replace_all(s, q, rep) == s);
        assert(w =~= seq!['\'']);
    } else {
        lemma_replace_single_step(s, '\'', rep);
        assert forall|i: int| 0 <= i < s.drop_first().len() implies !pwsh_quote_char(
            #[trigger] s.drop_first()[i],
        ) || s.drop_first()[i] == '\'' by {
            assert(s.drop_first()[i] == s[i + 1]);
        }
        lemma_pwsh_body(s.drop_first());
        let rest = replace_all(s.drop_first(), q, rep) + q;
        assert(rest.len() >= 1);
        if s[0] == '\'' {
            assert(w =~= seq!['\'', '\''] + rest);
            assert(w.skip(2) =~= rest);
        } else {
            assert(!pwsh_quote_char(s[0]));
            assert(w =~= seq![s[0]] + rest);
            assert(w.drop_first() =~= rest);
        }
        assert(seq![s[0]] + s.drop_first() =~= s);
    }
}

/// A path quoted by `pwsh_quote` is read back by PowerShell as exactly that
/// path, when the path holds none of the typographic quotes that PowerShell
/// also takes for single quotes.
pub proof fn law_pwsh_quote_reads_back(s: Seq<char>)
    requires
        forall|i: int| 0 <= i < s.len() ==> !pwsh_quote_char(#[trigger] s[i]) || s[i] == '\'',
    ensures
        pwsh_read(pwsh_quoted(s)) == Some(s),
{
    reveal_strlit("'");
    lemma_pwsh_body(s);
    let body = replace_all(s, "'"@, "''"@);
    assert(pwsh_quoted(s) =~= seq!['\''] + (body + "'"@));
    assert(pwsh_quoted(s).drop_first() =~= body + "'"@);
}

/// A full script with the placeholder replaced by the quoted path.
pub fn print_script(script: &str, path: &str) -> (r: String)
    ensures
        r@ == replace_all(script@, KABU_PATH_PLACEHOLDER@, path@),
{
    proof {
        reveal_strlit("::KABU::");
    }
    let out = replace_chars(&to_chars(script), &to_chars(KABU_PATH_PLACEHOLDER), &to_chars(path));
    from_chars(&out)
}

/// The path of the running executable, held as text; `None` when the
/// path is not valid Unicode.
pub struct KabuPath {
    pub native_path: Option<String>,
}

/// The error for an executable path that is not valid Unicode.
pub open spec fn path_not_unicode() -> Seq<char> {
    "Failed to convert kabu path to string"@
}

impl KabuPath {
    /// The path as text.
    pub fn str_path(&self) -> (r: Result<&str, Error>)
        ensures
            match self.native_path {
                Some(p) => r matches Ok(s) && s@ == p@,
                None => r matches Err(e) && e.spec_message() == path_not_unicode(),
            },
    {
        match &self.native_path {
            Some(p) => Ok(p.as_str()),
            None => Err(Error::Internal("Failed to convert kabu path to string".to_owned())),
        }
    }

    /// The path quoted for POSIX shells.
    pub fn sprint_posix(&self) -> (r: Result<String, Error>)
        ensures
            match self.native_path {
                Some(p) => r matches Ok(s) && s@ == posix_quoted(p@),
                None => r matches Err(e) && e.spec_message() == path_not_unicode(),
            },
    {
        let path = self.str_path()?;
        Ok(posix_quote(path))
    }

    /// The path quoted for PowerShell.
    pub fn sprint_pwsh(&self) -> (r: Result<String, Error>)
        ensures
            match self.native_path {
                Some(p) => r matches Ok(s) && s@ == pwsh_quoted(p@),
                None => r matches Err(e) && e.spec_message() == path_not_unicode(),
            },
    {
        let path = self.str_path()?;
        Ok(pwsh_quote(path))
    }
}

/// The path as the shell quotes it.
pub open spec fn quoted_for(shell: InitShell, p: Seq<char>) -> Seq<char> {
    match shell {
        InitShell::PowerShell => pwsh_quoted(p),
        _ => posix_quoted(p),
    }
}

/// The one-line stub for a shell, around the quoted path `q`.
pub open spec fn stub_text(shell: InitShell, q: Seq<char>) -> Seq<char> {
    match shell {
        InitShell::Bash => "eval -- \"$("@ + q + " init bash --print-full-init)\""@,
        InitShell::Zsh => "source <("@ + q + " init zsh --print-full-init)"@,
        InitShell::Fish => "source ("@ + q + " init fish --print-full-init | psub)"@,
        InitShell::PowerShell => "Invoke-Expression (& "@ + q
            + " init powershell --print-full-init | Out-String)"@,
        InitShell::Elvish => "eval ("@ + q + " init elvish --print-full-init | slurp)"@,
    }
}

fn quote_for(shell: InitShell, kabu: &KabuPath) -> (r: Result<String, Error>)
    ensures
        match kabu.native_path {
            Some(p) => r matches Ok(s) && s@ == quoted_for(shell, p@),
            None => r matches Err(e) && e.spec_message() == path_not_unicode(),
        },
{
    match shell {
        InitShell::PowerShell => kabu.sprint_pwsh(),
        _ => kabu.sprint_posix(),
    }
}

/// The stub that a shell's rc file evaluates to load the full script.
pub fn init_stub(shell: InitShell, kabu: &KabuPath) -> (r: Result<String, Error>)
    ensures
        match kabu.native_path {
            Some(p) => r matches Ok(s) && s@ == stub_text(shell, quoted_for(shell, p@)),
            None => r matches Err(e) && e.spec_message() == path_not_unicode(),
        },
{
    let q = quote_for(shell, kabu)?;
    let (before, after) = match shell {
        InitShell::Bash => ("eval -- \"$(", " init bash --print-full-init)\""),
        InitShell::Zsh => ("source <(", " init zsh --print-full-init)"),
        InitShell::Fish => ("source (", " init fish --print-full-init | psub)"),
        InitShell::PowerShell => (
            "Invoke-Expression (& ",
            " init powershell --print-full-init | Out-String)",
        ),
        InitShell::Elvish => ("eval (", " init elvish --print-full-init | slurp)"),
    };
    let mut out = to_chars(before);
    push_str(&mut out, q.as_str());
    push_str(&mut out, after);
    Ok(from_chars(&out))
}

/// The full script for a shell: `script`, the shell's script text, with the
/// placeholder replaced by the quoted path.
pub fn init_main(shell: InitShell, script: &str, kabu: &KabuPath) -> (r: Result<String, Error>)
    ensures
        match kabu.native_path {
            Some(p) => r matches Ok(s) && s@ == replace_all(
                script@,
                KABU_PATH_PLACEHOLDER@,
                quoted_for(shell, p@),
            ),
            None => r matches Err(e) && e.spec_message() == path_not_unicode(),
        },
{
    let q = quote_for(shell, kabu)?;
    Ok(print_script(script, q.as_str()))
}

/// What `init` prints: the full script when asked for, else the stub.
/// `script` is the shell's full script text.
pub fn run(shell: InitShell, print_full_init: bool, script: &str, kabu: &KabuPath) -> (r: Result<String, Error>)
    ensures
        match kabu.native_path {
            Some(p) => r matches Ok(s) && s@ == (if print_full_init {
                replace_all(script@, KABU_PATH_PLACEHOLDER@, quoted_for(shell, p@))
            } else {
                stub_text(shell, quoted_for(shell, p@))
            }),
            None => r matches Err(e) && e.spec_message() == path_not_unicode(),
        },
{
    if print_full_init {
        init_main(shell, script, kabu)
    } else {
        init_stub(shell, kabu)
    }
}

} // verus!
