//! Hook commands: template expansion with shell-escaped values, and the
//! lines shown for hooks in dry runs and for review.

use vstd::prelude::*;
use crate::color::ColorScheme;
use crate::config::{HookEntry, Hooks};
use crate::output::Output;
use crate::quoting::{
    lemma_replace_single_step, prepend, prepend_all, sh_read, sh_read_single,
};
use crate::text::{
    from_chars, matches_at, push_all, push_str, replace_all, replace_chars, starts_with, string_views, to_chars,
};

verus! {

/// The text of `s` in POSIX single quotes: each single quote inside is
/// written as `'\''` (end quote, escaped quote, start quote).
pub open spec fn shell_quoted(s: Seq<char>) -> Seq<char> {
    "'"@ + replace_all(s, "'"@, "'\\''"@) + "'"@
}

/// Escape a string for safe use in shell commands.
///
/// Uses POSIX sh single quote escaping: the whole string is wrapped in single
/// quotes and each single quote in it is written as `'\''`.
pub fn shell_escape(s: &str) -> (r: String)
    ensures
        r@ == shell_quoted(s@),
{
    proof {
        reveal_strlit("'");
    }
    let body = replace_chars(&to_chars(s), &to_chars("'"), &to_chars("'\\''"));
    let mut out = to_chars("'");
    push_all(&mut out, &body);
    push_str(&mut out, "'");
    from_chars(&out)
}

/// Inside single quotes, the escaped text of `s` followed by the closing
/// quote reads back as `s`, and reading goes on with `tail`.
proof fn lemma_single_quoted_body(s: Seq<char>, tail: Seq<char>)
    ensures
        sh_read_single(replace_all(s, "'"@, "'\\''"@) + "'"@ + tail) == prepend_all(s, sh_read(tail)),
    decreases s.len(),
{
    reveal_strlit("'");
    reveal_strlit("'\\''");
    let q = "'"@;
    let rep = "'\\''"@;
    assert(q =~= seq!['\'']);
    let w = replace_all(s, q, rep) + q + tail;
    if s.len() == 0 {
        assert(replace_all(s, q, rep) == s);
        assert(w =~= seq!['\''] + tail);
        assert(w.drop_first() =~= tail);
        match sh_read(tail) {
            Some(x) => {
                assert(s + x =~= x);
            },
            None => {},
        }
    } else {
        lemma_replace_single_step(s, '\'', rep);
        lemma_single_quoted_body(s.drop_first(), tail);
        let rest = replace_all(s.drop_first(), q, rep) + q + tail;
        let r = sh_read(tail);
        if s[0] == '\'' {
            assert(w =~= seq!['\'', '\\', '\'', '\''] + rest);
            let w1 = w.drop_first();
            assert(w1 =~= seq!['\\', '\'', '\''] + rest);
            assert(w1.skip(2) =~= seq!['\''] + rest);
            assert(w1.skip(2).drop_first() =~= rest);
            assert(sh_read_single(w) == sh_read(w1));
            assert(sh_read(w1) == prepend('\'', sh_read(w1.skip(2))));
            assert(sh_read(w1.skip(2)) == sh_read_single(rest));
        } else {
            assert(w =~= seq![s[0]] + rest);
            assert(w.drop_first() =~= rest);
        }
        match r {
            Some(x) => {
                assert(seq![s[0]] + (s.drop_first() + x) =~= s + x);
            },
            None => {},
        }
    }
}

/// A word made by `shell_escape` is read back by a POSIX shell as exactly
/// the text that was escaped, whatever characters it holds: no character of
/// it is taken for an expansion, a word break or an operator.
pub proof fn law_shell_escape_reads_back(s: Seq<char>)
    ensures
        sh_read(shell_quoted(s)) == Some(s),
{
    reveal_strlit("'");
    let body = replace_all(s, "'"@, "'\\''"@);
    lemma_single_quoted_body(s, seq![]);
    assert(shell_quoted(s) =~= seq!['\''] + (body + "'"@ + seq![]));
    assert(shell_quoted(s).drop_first() =~= body + "'"@ + seq![]);
    assert(sh_read(seq![]) == Some(Seq::<char>::empty()));
    assert(s + seq![] =~= s);
}

/// Template variables for hooks.
///
/// All variables are shell-escaped when expanded.
pub struct HookEnv {
    /// Worktree path
    pub worktree_path: String,
    /// Worktree directory name
    pub worktree_name: String,
    /// Branch name (if applicable)
    pub branch: Option<String>,
    /// Repository root path
    pub repo_root: String,
}

/// What `{{branch}}` expands to: the escaped branch, or nothing.
pub open spec fn branch_value(branch: Option<String>) -> Seq<char> {
    match branch {
        Some(b) => shell_quoted(b@),
        None => seq![],
    }
}

/// A hook command with its variables replaced in one pass from left to
/// right: where `{{worktree_path}}`, `{{worktree_name}}`, `{{repo_root}}` or
/// `{{branch}}` begins, its escaped value is written and the scan goes on
/// after the placeholder; every other character is kept.  Text that comes
/// from a value is never scanned again.
pub open spec fn expanded_command(env: HookEnv, cmd: Seq<char>) -> Seq<char>
    decreases cmd.len(),
{
    if cmd.len() == 0 {
        seq![]
    } else if starts_with(cmd, "{{worktree_path}}"@) {
        proof {
            reveal_strlit("{{worktree_path}}");
        }
        shell_quoted(env.worktree_path@) + expanded_command(env, cmd.skip("{{worktree_path}}"@.len() as int))
    } else if starts_with(cmd, "{{worktree_name}}"@) {
        proof {
            reveal_strlit("{{worktree_name}}");
        }
        shell_quoted(env.worktree_name@) + expanded_command(env, cmd.skip("{{worktree_name}}"@.len() as int))
    } else if starts_with(cmd, "{{repo_root}}"@) {
        proof {
            reveal_strlit("{{repo_root}}");
        }
        shell_quoted(env.repo_root@) + expanded_command(env, cmd.skip("{{repo_root}}"@.len() as int))
    } else if starts_with(cmd, "{{branch}}"@) {
        proof {
            reveal_strlit("{{branch}}");
        }
        branch_value(env.branch) + expanded_command(env, cmd.skip("{{branch}}"@.len() as int))
    } else {
        seq![cmd[0]] + expanded_command(env, cmd.drop_first())
    }
}

/// Whether a placeholder begins at the start of `s`, longer than `room`.
pub open spec fn placeholder_overruns(s: Seq<char>, room: int) -> bool {
    ||| (starts_with(s, "{{worktree_path}}"@) && "{{worktree_path}}"@.len() > room)
    ||| (starts_with(s, "{{worktree_name}}"@) && "{{worktree_name}}"@.len() > room)
    ||| (starts_with(s, "{{repo_root}}"@) && "{{repo_root}}"@.len() > room)
    ||| (starts_with(s, "{{branch}}"@) && "{{branch}}"@.len() > room)
}

/// Whether no placeholder of `c1 + c2` begins in `c1` and ends in `c2`.
pub open spec fn no_placeholder_straddles(c1: Seq<char>, c2: Seq<char>) -> bool {
    forall|k: int| 0 <= k < c1.len() ==> !placeholder_overruns(#[trigger] (c1 + c2).skip(k), c1.len() - k)
}

proof fn lemma_prefix_starts(c1: Seq<char>, c2: Seq<char>, p: Seq<char>)
    requires
        p.len() <= c1.len(),
    ensures
        starts_with(c1 + c2, p) == starts_with(c1, p),
{
    assert((c1 + c2).take(p.len() as int) =~= c1.take(p.len() as int));
}

proof fn lemma_straddle_shift(c1: Seq<char>, c2: Seq<char>, n: int)
    requires
        no_placeholder_straddles(c1, c2),
        0 <= n <= c1.len(),
    ensures
        no_placeholder_straddles(c1.skip(n), c2),
{
    assert forall|k: int| 0 <= k < c1.skip(n).len() implies !placeholder_overruns(
        #[trigger] (c1.skip(n) + c2).skip(k),
        c1.skip(n).len() - k,
    ) by {
        assert((c1.skip(n) + c2).skip(k) =~= (c1 + c2).skip(k + n));
        assert(!placeholder_overruns((c1 + c2).skip(k + n), c1.len() - (k + n)));
    }
}

/// Expanding a command is expanding its pieces: where no placeholder spans
/// the cut between `c1` and `c2`, the expansion of `c1 + c2` is that of `c1`
/// followed by that of `c2`.  So every placeholder of the command is
/// replaced wherever it stands, whatever comes before or after it.
pub proof fn law_expansion_splits(env: HookEnv, c1: Seq<char>, c2: Seq<char>)
    requires
        no_placeholder_straddles(c1, c2),
    ensures
        expanded_command(env, c1 + c2) == expanded_command(env, c1) + expanded_command(env, c2),
    decreases c1.len(),
{
    reveal_strlit("{{worktree_path}}");
    reveal_strlit("{{worktree_name}}");
    reveal_strlit("{{repo_root}}");
    reveal_strlit("{{branch}}");
    let s = c1 + c2;
    if c1.len() == 0 {
        assert(s =~= c2);
        assert(expanded_command(env, c1) =~= Seq::<char>::empty());
        assert(expanded_command(env, c1) + expanded_command(env, c2) =~= expanded_command(env, c2));
    } else {
        assert(s.skip(0) =~= s);
        assert(!placeholder_overruns(s.skip(0), c1.len() - 0));
        let p1 = "{{worktree_path}}"@;
        let p2 = "{{worktree_name}}"@;
        let p3 = "{{repo_root}}"@;
        let p4 = "{{branch}}"@;
        if p1.len() <= c1.len() {
            lemma_prefix_starts(c1, c2, p1);
        } else {
            assert(!starts_with(s, p1));
        }
        if p2.len() <= c1.len() {
            lemma_prefix_starts(c1, c2, p2);
        } else {
            assert(!starts_with(s, p2));
        }
        if p3.len() <= c1.len() {
            lemma_prefix_starts(c1, c2, p3);
        } else {
            assert(!starts_with(s, p3));
        }
        if p4.len() <= c1.len() {
            lemma_prefix_starts(c1, c2, p4);
        } else {
            assert(!starts_with(s, p4));
        }
        let n: int = if starts_with(c1, p1) {
            p1.len() as int
        } else if starts_with(c1, p2) {
            p2.len() as int
        } else if starts_with(c1, p3) {
            p3.len() as int
        } else if starts_with(c1, p4) {
            p4.len() as int
        } else {
            1
        };
        assert(n <= c1.len());
        lemma_straddle_shift(c1, c2, n);
        law_expansion_splits(env, c1.skip(n), c2);
        assert(s.skip(n) =~= c1.skip(n) + c2);
        if !starts_with(c1, p1) && !starts_with(c1, p2) && !starts_with(c1, p3) && !starts_with(c1, p4) {
            assert(s.drop_first() =~= c1.skip(1) + c2);
            assert(c1.drop_first() =~= c1.skip(1));
            assert(s[0] == c1[0]);
        }
    }
}

/// A placeholder that stands as a word of its own reaches the shell as
/// exactly its value, whatever characters the value holds.
pub proof fn law_placeholder_reads_back_as_value(env: HookEnv)
    ensures
        sh_read(expanded_command(env, "{{worktree_path}}"@)) == Some(env.worktree_path@),
        sh_read(expanded_command(env, "{{worktree_name}}"@)) == Some(env.worktree_name@),
        sh_read(expanded_command(env, "{{repo_root}}"@)) == Some(env.repo_root@),
        env.branch matches Some(b) ==> sh_read(expanded_command(env, "{{branch}}"@)) == Some(b@),
{
    reveal_strlit("{{worktree_path}}");
    reveal_strlit("{{worktree_name}}");
    reveal_strlit("{{repo_root}}");
    reveal_strlit("{{branch}}");
    let p1 = "{{worktree_path}}"@;
    let p2 = "{{worktree_name}}"@;
    let p3 = "{{repo_root}}"@;
    let p4 = "{{branch}}"@;
    assert(p1.take(17) =~= p1 && p1.skip(17).len() == 0);
    assert(p2.take(17) =~= p2 && p2.skip(17).len() == 0);
    assert(!starts_with(p2, p1)) by {
        assert(p2[11] != p1[11]);
    }
    assert(p3.take(13) =~= p3 && p3.skip(13).len() == 0);
    assert(!starts_with(p3, p1)) by {
        assert(p3[2] != p1[2]);
    }
    assert(!starts_with(p3, p2)) by {
        assert(p3[2] != p2[2]);
    }
    assert(p4.take(10) =~= p4 && p4.skip(10).len() == 0);
    assert(!starts_with(p4, p1));
    assert(!starts_with(p4, p2));
    assert(!starts_with(p4, p3)) by {
        assert(p4[2] != p3[2]);
    }
    assert(expanded_command(env, p1.skip(17)) =~= Seq::<char>::empty());
    assert(expanded_command(env, p2.skip(17)) =~= Seq::<char>::empty());
    assert(expanded_command(env, p3.skip(13)) =~= Seq::<char>::empty());
    assert(expanded_command(env, p4.skip(10)) =~= Seq::<char>::empty());
    assert(expanded_command(env, p1) =~= shell_quoted(env.worktree_path@));
    assert(expanded_command(env, p2) =~= shell_quoted(env.worktree_name@));
    assert(expanded_command(env, p3) =~= shell_quoted(env.repo_root@));
    law_shell_escape_reads_back(env.worktree_path@);
    law_shell_escape_reads_back(env.worktree_name@);
    law_shell_escape_reads_back(env.repo_root@);
    if let Some(b) = env.branch {
        assert(expanded_command(env, p4) =~= shell_quoted(b@));
        law_shell_escape_reads_back(b@);
    }
}

/// Whether `pat` begins at position `i` of the buffer.
fn begins_at(s: &Vec<char>, i: usize, pat: &Vec<char>) -> (r: bool)
    requires
        i <= s.len(),
    ensures
        r == starts_with(s@.skip(i as int), pat@),
{
    let r = matches_at(s.as_slice(), i, pat.as_slice());
    proof {
        if pat@.len() <= s@.len() - i {
            assert(s@.skip(i as int).take(pat@.len() as int) =~= s@.subrange(i as int, i + pat@.len()));
        }
    }
    r
}

impl HookEnv {
    /// Expand template variables in a command string.
    ///
    /// Supported: `{{worktree_path}}`, `{{worktree_name}}`, `{{branch}}`
    /// (empty if there is no branch) and `{{repo_root}}`.  Every value is
    /// shell-escaped, and inserted text is not scanned for placeholders
    /// again, so each value reaches the shell as one quoted word.
    pub fn expand_template(&self, cmd: &str) -> (r: String)
        ensures
            r@ == expanded_command(*self, cmd@),
    {
        proof {
            reveal_strlit("{{worktree_path}}");
            reveal_strlit("{{worktree_name}}");
            reveal_strlit("{{repo_root}}");
            reveal_strlit("{{branch}}");
        }
        let cs = to_chars(cmd);
        let p_path = to_chars("{{worktree_path}}");
        let p_name = to_chars("{{worktree_name}}");
        let p_root = to_chars("{{repo_root}}");
        let p_branch = to_chars("{{branch}}");
        let v_path = to_chars(shell_escape(self.worktree_path.as_str()).as_str());
        let v_name = to_chars(shell_escape(self.worktree_name.as_str()).as_str());
        let v_root = to_chars(shell_escape(self.repo_root.as_str()).as_str());
        let v_branch: Vec<char> = match &self.branch {
            Some(branch) => to_chars(shell_escape(branch.as_str()).as_str()),
            None => Vec::new(),
        };
        let ghost env = *self;
        let mut out: Vec<char> = Vec::new();
        let mut i: usize = 0;
        proof {
            assert(cs@.skip(0) =~= cs@);
            assert(out@ + expanded_command(env, cs@) =~= expanded_command(env, cs@));
        }
        while i < cs.len()
            invariant
                i <= cs.len(),
                cs@ == cmd@,
                env == *self,
                p_path@ == "{{worktree_path}}"@,
                p_name@ == "{{worktree_name}}"@,
                p_root@ == "{{repo_root}}"@,
                p_branch@ == "{{branch}}"@,
                p_path@.len() == 17,
                p_name@.len() == 17,
                p_root@.len() == 13,
                p_branch@.len() == 10,
                v_path@ == shell_quoted(env.worktree_path@),
                v_name@ == shell_quoted(env.worktree_name@),
                v_root@ == shell_quoted(env.repo_root@),
                v_branch@ == branch_value(env.branch),
                out@ + expanded_command(env, cs@.skip(i as int)) == expanded_command(env, cs@),
            decreases cs.len() - i,
        {
            let ghost t = cs@.skip(i as int);
            let ghost before = out@;
            if begins_at(&cs, i, &p_path) {
                push_all(&mut out, &v_path);
                proof {
                    assert(t.skip(17) =~= cs@.skip(i + 17));
                    assert(out@ + expanded_command(env, t.skip(17)) =~= before + expanded_command(env, t));
                }
                i = i + 17;
            } else if begins_at(&cs, i, &p_name) {
                push_all(&mut out, &v_name);
                proof {
                    assert(t.skip(17) =~= cs@.skip(i + 17));
                    assert(out@ + expanded_command(env, t.skip(17)) =~= before + expanded_command(env, t));
                }
                i = i + 17;
            } else if begins_at(&cs, i, &p_root) {
                push_all(&mut out, &v_root);
                proof {
                    assert(t.skip(13) =~= cs@.skip(i + 13));
                    assert(out@ + expanded_command(env, t.skip(13)) =~= before + expanded_command(env, t));
                }
                i = i + 13;
            } else if begins_at(&cs, i, &p_branch) {
                push_all(&mut out, &v_branch);
                proof {
                    assert(t.skip(10) =~= cs@.skip(i + 10));
                    assert(out@ + expanded_command(env, t.skip(10)) =~= before + expanded_command(env, t));
                }
                i = i + 10;
            } else {
                out.push(cs[i]);
                proof {
                    assert(t.drop_first() =~= cs@.skip(i + 1));
                    assert(out@ + expanded_command(env, t.drop_first()) =~= before + expanded_command(env, t));
                }
                i = i + 1;
            }
        }
        proof {
            assert(out@ + expanded_command(env, cs@.skip(i as int)) =~= out@);
        }
        from_chars(&out)
    }
}

/// What a dry run shows for a hook entry: its description, or its command.
pub open spec fn hook_display(e: HookEntry) -> Seq<char> {
    match e.description {
        Some(d) => d@,
        None => e.command@,
    }
}

/// The dry-run lines for hook entries, one per entry, in order; none in
/// quiet mode.
pub fn dry_run_hooks(hook_type: &str, entries: &[HookEntry], output: &Output) -> (r: Vec<String>)
    ensures
        output.quiet ==> r@.len() == 0,
        !output.quiet ==> r@.len() == entries@.len(),
        !output.quiet ==> forall|i: int|
            0 <= i < r@.len() ==> (#[trigger] r@[i])@ == "[dry-run] "@ + "Would run "@ + hook_type@
                + " hook: "@ + hook_display(entries@[i]),
{
    let mut out: Vec<String> = Vec::new();
    let mut i: usize = 0;
    while i < entries.len()
        invariant
            i <= entries.len(),
            output.quiet ==> out@.len() == 0,
            !output.quiet ==> out@.len() == i,
            !output.quiet ==> forall|j: int|
                0 <= j < i ==> (#[trigger] out@[j])@ == "[dry-run] "@ + "Would run "@ + hook_type@
                    + " hook: "@ + hook_display(entries@[j]),
        decreases entries.len() - i,
    {
        let entry = &entries[i];
        let mut msg = to_chars("Would run ");
        push_str(&mut msg, hook_type);
        push_str(&mut msg, " hook: ");
        match &entry.description {
            Some(d) => push_str(&mut msg, d.as_str()),
            None => push_str(&mut msg, entry.command.as_str()),
        }
        let text = from_chars(&msg);
        match output.dry_run(text.as_str()) {
            Some(line) => {
                proof {
                    assert(line@ =~= "[dry-run] "@ + "Would run "@ + hook_type@ + " hook: "@
                        + hook_display(entries@[i as int]));
                }
                out.push(line);
            },
            None => {},
        }
        i = i + 1;
    }
    out
}

/// `text` styled by `style_of` when colors are used, as it is otherwise.
pub open spec fn maybe_styled(use_color: bool, styled: Seq<char>, text: Seq<char>) -> Seq<char> {
    if use_color {
        styled
    } else {
        text
    }
}

/// The two lines of a hook entry shown for review: its command, then its
/// description (or that it has none) after an arrow.
pub open spec fn entry_review_lines(e: HookEntry, use_color: bool, scheme: ColorScheme) -> Seq<Seq<char>> {
    let arrow = maybe_styled(use_color, scheme.styled(scheme.theme.hook_arrow, "->"@), "->"@);
    let desc = match e.description {
        Some(d) => maybe_styled(use_color, scheme.styled(scheme.theme.hook_description, d@), d@),
        None => maybe_styled(
            use_color,
            scheme.styled(scheme.theme.dimmed, "no description"@),
            "no description"@,
        ),
    };
    seq!["  "@ + e.command@, "  "@ + arrow + " "@ + desc]
}

/// The lines of the review of one kind of hooks: nothing when there is no
/// hook; else an empty line, the kind, and each entry's lines.
pub open spec fn hook_review_lines(
    entries: Seq<HookEntry>,
    hook_type: Seq<char>,
    use_color: bool,
    scheme: ColorScheme,
) -> Seq<Seq<char>>
    decreases entries.len(),
{
    if entries.len() == 0 {
        seq![]
    } else if entries.len() == 1 {
        seq![
            seq![],
            maybe_styled(
                use_color,
                scheme.styled(scheme.theme.hook_type, hook_type + ":"@),
                hook_type + ":"@,
            ),
        ] + entry_review_lines(entries[0], use_color, scheme)
    } else {
        hook_review_lines(entries.drop_last(), hook_type, use_color, scheme) + entry_review_lines(
            entries.last(),
            use_color,
            scheme,
        )
    }
}

fn styled_or_plain(scheme: &ColorScheme, use_color: bool, which: u8, text: &str) -> (r: String)
    requires
        which < 4,
    ensures
        r@ == maybe_styled(
            use_color,
            scheme.styled(
                if which == 0 {
                    scheme.theme.hook_type
                } else if which == 1 {
                    scheme.theme.hook_arrow
                } else if which == 2 {
                    scheme.theme.hook_description
                } else {
                    scheme.theme.dimmed
                },
                text@,
            ),
            text@,
        ),
{
    if !use_color {
        return text.to_owned();
    }
    if which == 0 {
        scheme.hook_type(text)
    } else if which == 1 {
        scheme.hook_arrow(text)
    } else if which == 2 {
        scheme.hook_description(text)
    } else {
        scheme.dimmed(text)
    }
}

/// The lines that show hook entries of one kind for review.
pub fn display_hook_entries(entries: &Vec<HookEntry>, hook_type: &str, use_color: bool, scheme: &ColorScheme) -> (r:
    Vec<String>)
    ensures
        string_views(r@) == hook_review_lines(entries@, hook_type@, use_color, *scheme),
{
    let mut out: Vec<String> = Vec::new();
    if entries.len() == 0 {
        return out;
    }
    out.push(String::new());
    let mut title = to_chars(hook_type);
    push_str(&mut title, ":");
    let t = from_chars(&title);
    out.push(styled_or_plain(scheme, use_color, 0, t.as_str()));
    let mut i: usize = 0;
    while i < entries.len()
        invariant
            0 < entries@.len(),
            i <= entries.len(),
            i == 0 ==> string_views(out@) == seq![
                seq![],
                maybe_styled(
                    use_color,
                    scheme.styled(scheme.theme.hook_type, hook_type@ + ":"@),
                    hook_type@ + ":"@,
                ),
            ],
            i > 0 ==> string_views(out@) == hook_review_lines(
                entries@.take(i as int),
                hook_type@,
                use_color,
                *scheme,
            ),
        decreases entries.len() - i,
    {
        let e = &entries[i];
        let ghost before = string_views(out@);
        let mut l1 = to_chars("  ");
        push_str(&mut l1, e.command.as_str());
        out.push(from_chars(&l1));
        let mut l2 = to_chars("  ");
        let arrow = styled_or_plain(scheme, use_color, 1, "->");
        push_str(&mut l2, arrow.as_str());
        push_str(&mut l2, " ");
        let desc = match &e.description {
            Some(d) => styled_or_plain(scheme, use_color, 2, d.as_str()),
            None => styled_or_plain(scheme, use_color, 3, "no description"),
        };
        push_str(&mut l2, desc.as_str());
        out.push(from_chars(&l2));
        proof {
            assert(string_views(out@) =~= before + entry_review_lines(entries@[i as int], use_color, *scheme));
            assert(entries@.take(i + 1).drop_last() =~= entries@.take(i as int));
            if i == 0 {
                assert(entries@.take(1)[0] == entries@[0]);
            }
        }
        i = i + 1;
    }
    proof {
        assert(entries@.take(entries.len() as int) =~= entries@);
    }
    out
}

/// The review of all hooks shown before they are trusted: a warning, what
/// trusting allows, then each kind of hooks.
pub open spec fn hooks_review(hooks: Hooks, use_color: bool, scheme: ColorScheme) -> Seq<Seq<char>> {
    let warning = "WARNING: Untrusted hooks detected in .gwtx.toml"@;
    seq![
        maybe_styled(use_color, scheme.styled(scheme.theme.warning, warning), warning),
        seq![],
        "Trusting will allow ALL hooks in this file to execute:"@,
    ] + hook_review_lines(hooks.pre_add@, "pre_add"@, use_color, scheme) + hook_review_lines(
        hooks.post_add@,
        "post_add"@,
        use_color,
        scheme,
    ) + hook_review_lines(hooks.pre_remove@, "pre_remove"@, use_color, scheme) + hook_review_lines(
        hooks.post_remove@,
        "post_remove"@,
        use_color,
        scheme,
    )
}

pub(crate) fn append_lines(out: &mut Vec<String>, more: Vec<String>)
    ensures
        string_views(final(out)@) == string_views(old(out)@) + string_views(more@),
{
    let ghost start = string_views(out@);
    let mut more = more;
    let mut i: usize = 0;
    let ghost mv = string_views(more@);
    while i < more.len()
        invariant
            i <= more.len(),
            mv == string_views(more@),
            string_views(out@) == start + mv.take(i as int),
        decreases more.len() - i,
    {
        let ghost before = string_views(out@);
        out.push(more[i].clone());
        proof {
            assert(string_views(out@) =~= before.push(mv[i as int]));
            assert(mv.take(i + 1) =~= mv.take(i as int).push(mv[i as int]));
        }
        i = i + 1;
    }
    proof {
        assert(mv.take(more.len() as int) =~= mv);
    }
}

/// The lines that show the hooks for review before they are trusted.
pub fn display_hooks_for_review(hooks: &Hooks, use_color: bool, scheme: &ColorScheme) -> (r: Vec<String>)
    ensures
        string_views(r@) == hooks_review(*hooks, use_color, *scheme),
{
    let mut out: Vec<String> = Vec::new();
    let warning = "WARNING: Untrusted hooks detected in .gwtx.toml";
    if use_color {
        out.push(scheme.warning(warning));
    } else {
        out.push(warning.to_owned());
    }
    out.push(String::new());
    out.push("Trusting will allow ALL hooks in this file to execute:".to_owned());
    let ghost head = string_views(out@);
    append_lines(&mut out, display_hook_entries(&hooks.pre_add, "pre_add", use_color, scheme));
    append_lines(&mut out, display_hook_entries(&hooks.post_add, "post_add", use_color, scheme));
    append_lines(&mut out, display_hook_entries(&hooks.pre_remove, "pre_remove", use_color, scheme));
    append_lines(&mut out, display_hook_entries(&hooks.post_remove, "post_remove", use_color, scheme));
    proof {
        let warning_v = "WARNING: Untrusted hooks detected in .gwtx.toml"@;
        assert(head =~= seq![
            maybe_styled(use_color, scheme.styled(scheme.theme.warning, warning_v), warning_v),
            seq![],
            "Trusting will allow ALL hooks in this file to execute:"@,
        ]);
    }
    out
}

/// The outcome of running a hook: an error when it could not be started,
/// another when it exited unsuccessfully (its output was already shown).
pub fn hook_outcome(command: &str, spawn_error: Option<String>, success: bool, exit_code: Option<i32>) -> (r:
    Result<(), crate::error::Error>)
    ensures
        spawn_error matches Some(cause) ==> (r matches Err(
            crate::error::Error::HookExecutionFailed { command: c, cause: k },
        ) && c@ == command@ && k@ == cause@),
        spawn_error is None && !success ==> (r matches Err(
            crate::error::Error::HookFailed { command: c, exit_code: code, stderr },
        ) && c@ == command@ && code == exit_code && stderr@.len() == 0),
        spawn_error is None && success ==> r is Ok,
{
    match spawn_error {
        Some(cause) => Err(crate::error::Error::HookExecutionFailed { command: command.to_owned(), cause }),
        None => {
            if !success {
                Err(
                    crate::error::Error::HookFailed {
                        command: command.to_owned(),
                        exit_code,
                        stderr: String::new(),
                    },
                )
            } else {
                Ok(())
            }
        },
    }
}

} // verus!
