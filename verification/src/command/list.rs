//! The `list` command: the lines that describe the worktrees.

use vstd::prelude::*;
use vstd::utf8::encode_utf8;
use crate::color::ColorScheme;
use crate::git::{UnpushedCommits, WorktreeInfo, WorktreeStatus};
use crate::text::{
    decimal, from_chars, join, pad_right, push_all, push_decimal, push_padded, push_str,
    slice_chars, starts_with, starts_with_str, string_views, to_chars,
};

verus! {

/// A worktree with what is shown of it.
pub struct DisplayWorktree {
    pub path: String,
    pub branch: String,
    pub head: String,
    pub status: WorktreeStatus,
    pub unpushed: UnpushedCommits,
    pub upstream: Option<String>,
    pub is_locked: bool,
}

/// The branch shown: the name of a local branch, else `(detached)`.
pub open spec fn branch_text(branch: Option<String>) -> Seq<char> {
    match branch {
        Some(b) => if starts_with(b@, "refs/heads/"@) {
            b@.skip("refs/heads/"@.len() as int)
        } else {
            "(detached)"@
        },
        None => "(detached)"@,
    }
}

/// The branch shown for a worktree.
pub fn branch_display(branch: &Option<String>) -> (r: String)
    ensures
        r@ == branch_text(*branch),
{
    proof {
        reveal_strlit("refs/heads/");
    }
    match branch {
        Some(b) => {
            let cs = to_chars(b.as_str());
            if starts_with_str(&cs, "refs/heads/") {
                let rest = slice_chars(&cs, 11, cs.len());
                proof {
                    assert(rest@ =~= b@.skip(11));
                }
                from_chars(&rest)
            } else {
                "(detached)".to_owned()
            }
        },
        None => "(detached)".to_owned(),
    }
}

/// The kinds of uncommitted changes, in order.
pub open spec fn change_words(st: WorktreeStatus) -> Seq<Seq<char>> {
    (if st.modified_count > 0 {
        seq!["modified"@]
    } else {
        seq![]
    }) + (if st.deleted_count > 0 {
        seq!["deleted"@]
    } else {
        seq![]
    }) + (if st.untracked_count > 0 {
        seq!["untracked"@]
    } else {
        seq![]
    })
}

/// The upstream named after the unpushed count, where there is one.
pub open spec fn upstream_suffix(upstream: Option<String>) -> Seq<char> {
    match upstream {
        Some(u) => " (vs "@ + u@ + ")"@,
        None => seq![],
    }
}

/// The parts of a worktree's status: its changes, its unpushed commits and
/// whether it is locked.
pub open spec fn status_parts(
    st: WorktreeStatus,
    unpushed: UnpushedCommits,
    upstream: Option<String>,
    is_locked: bool,
) -> Seq<Seq<char>> {
    (if st.has_uncommitted_changes && change_words(st).len() > 0 {
        seq![join(change_words(st), ", "@)]
    } else {
        seq![]
    }) + (if unpushed.has_unpushed {
        seq![
            "unpushed: "@ + decimal(unpushed.count as nat) + upstream_suffix(upstream),
        ]
    } else {
        seq![]
    }) + (if is_locked {
        seq!["locked"@]
    } else {
        seq![]
    })
}

/// The status shown for a worktree: its parts joined by ` | `, or
/// `up to date`.
pub open spec fn status_text(
    st: WorktreeStatus,
    unpushed: UnpushedCommits,
    upstream: Option<String>,
    is_locked: bool,
) -> Seq<char> {
    let parts = status_parts(st, unpushed, upstream, is_locked);
    if parts.len() == 0 {
        "up to date"@
    } else {
        join(parts, " | "@)
    }
}

proof fn lemma_occurs_in_wider(a: Seq<char>, s: Seq<char>, b: Seq<char>, p: Seq<char>, i: int)
    requires
        crate::text::occurs_at(s, p, i),
    ensures
        crate::text::occurs_at(a + s + b, p, i + a.len()),
{
    assert((a + s + b).subrange(i + a.len(), i + a.len() + p.len()) =~= s.subrange(i, i + p.len()));
}

/// Each part of a joined text occurs in it.
proof fn lemma_join_contains(parts: Seq<Seq<char>>, sep: Seq<char>, k: int)
    requires
        0 <= k < parts.len(),
    ensures
        crate::text::contains_sub(join(parts, sep), parts[k]),
    decreases parts.len(),
{
    let pk = parts[k];
    if parts.len() == 1 {
        assert(crate::text::occurs_at(pk, pk, 0)) by {
            assert(pk.subrange(0, pk.len() as int) =~= pk);
        }
        assert(crate::text::occurs_at(join(parts, sep), pk, 0));
    } else {
        let front = join(parts.drop_last(), sep);
        if k == parts.len() - 1 {
            assert(crate::text::occurs_at(pk, pk, 0)) by {
                assert(pk.subrange(0, pk.len() as int) =~= pk);
            }
            lemma_occurs_in_wider(front + sep, pk, seq![], pk, 0);
            assert(front + sep + pk + seq![] =~= join(parts, sep));
            assert(crate::text::occurs_at(join(parts, sep), pk, (front + sep).len() as int));
        } else {
            lemma_join_contains(parts.drop_last(), sep, k);
            assert(parts.drop_last()[k] == pk);
            let i = choose|i: int| crate::text::occurs_at(front, pk, i);
            lemma_occurs_in_wider(seq![], front, sep + parts.last(), pk, i);
            assert(seq![] + front + (sep + parts.last()) =~= join(parts, sep));
            assert(crate::text::occurs_at(join(parts, sep), pk, i));
        }
    }
}

proof fn lemma_not_in_up_to_date(w: Seq<char>)
    requires
        w == "untracked"@ || w == "modified"@ || w == "deleted"@,
    ensures
        !crate::text::contains_sub("up to date"@, w),
{
    reveal_strlit("up to date");
    reveal_strlit("untracked");
    reveal_strlit("modified");
    reveal_strlit("deleted");
    let u = "up to date"@;
    if crate::text::contains_sub(u, w) {
        let i = choose|i: int| crate::text::occurs_at(u, w, i);
        assert(u.subrange(i, i + w.len())[0] == u[i]);
        assert(u.subrange(i, i + w.len())[1] == u[i + 1]);
        assert(w[0] == u[i] && w[1] == u[i + 1]);
    }
}

proof fn lemma_contains_trans(s: Seq<char>, t: Seq<char>, v: Seq<char>)
    requires
        crate::text::contains_sub(s, t),
        crate::text::contains_sub(t, v),
    ensures
        crate::text::contains_sub(s, v),
{
    let j = choose|j: int| crate::text::occurs_at(s, t, j);
    let i = choose|i: int| crate::text::occurs_at(t, v, i);
    assert(s.subrange(j + i, j + i + v.len()) =~= t.subrange(i, i + v.len())) by {
        assert(s.subrange(j, j + t.len()) == t);
    }
    assert(crate::text::occurs_at(s, v, j + i));
}

proof fn lemma_change_word_positions(st: WorktreeStatus)
    ensures
        st.modified_count > 0 ==> change_words(st)[0] == "modified"@,
        st.deleted_count > 0 ==> change_words(st)[if st.modified_count > 0 {
            1int
        } else {
            0int
        }] == "deleted"@,
        st.untracked_count > 0 ==> change_words(st)[change_words(st).len() - 1] == "untracked"@,
        st.modified_count > 0 || st.deleted_count > 0 || st.untracked_count > 0 ==> change_words(st).len()
            > 0,
        change_words(st).len() <= 3,
{
}

proof fn lemma_text_contains_word(
    st: WorktreeStatus,
    unpushed: UnpushedCommits,
    upstream: Option<String>,
    is_locked: bool,
    k: int,
)
    requires
        st.has_uncommitted_changes,
        0 <= k < change_words(st).len(),
    ensures
        crate::text::contains_sub(status_text(st, unpushed, upstream, is_locked), change_words(st)[k]),
{
    let words = change_words(st);
    let parts = status_parts(st, unpushed, upstream, is_locked);
    let changes = join(words, ", "@);
    assert(parts[0] == changes);
    lemma_join_contains(parts, " | "@, 0);
    lemma_join_contains(words, ", "@, k);
    lemma_contains_trans(status_text(st, unpushed, upstream, is_locked), changes, words[k]);
}

/// With uncommitted changes, the status names each kind of change that has
/// a positive count, each on its own (`untracked` whatever the other counts
/// are), and a worktree with a positive count is never shown as up to date.
pub proof fn law_status_names_changes(
    st: WorktreeStatus,
    unpushed: UnpushedCommits,
    upstream: Option<String>,
    is_locked: bool,
)
    requires
        st.has_uncommitted_changes,
    ensures
        st.untracked_count > 0 ==> crate::text::contains_sub(
            status_text(st, unpushed, upstream, is_locked),
            "untracked"@,
        ),
        st.modified_count > 0 ==> crate::text::contains_sub(
            status_text(st, unpushed, upstream, is_locked),
            "modified"@,
        ),
        st.deleted_count > 0 ==> crate::text::contains_sub(
            status_text(st, unpushed, upstream, is_locked),
            "deleted"@,
        ),
        st.modified_count > 0 || st.deleted_count > 0 || st.untracked_count > 0 ==> status_text(
            st,
            unpushed,
            upstream,
            is_locked,
        ) != "up to date"@,
{
    let words = change_words(st);
    let text = status_text(st, unpushed, upstream, is_locked);
    lemma_change_word_positions(st);
    if st.untracked_count > 0 {
        lemma_text_contains_word(st, unpushed, upstream, is_locked, words.len() - 1);
        lemma_not_in_up_to_date("untracked"@);
    }
    if st.modified_count > 0 {
        lemma_text_contains_word(st, unpushed, upstream, is_locked, 0);
        lemma_not_in_up_to_date("modified"@);
    }
    if st.deleted_count > 0 {
        lemma_text_contains_word(st, unpushed, upstream, is_locked, if st.modified_count > 0 {
            1int
        } else {
            0int
        });
        lemma_not_in_up_to_date("deleted"@);
    }
}

fn push_part(parts: &mut Vec<Vec<char>>, part: Vec<char>)
    ensures
        crate::text::buffer_views(final(parts)@) == crate::text::buffer_views(old(parts)@).push(
            part@,
        ),
{
    let ghost before = crate::text::buffer_views(parts@);
    parts.push(part);
    proof {
        assert(crate::text::buffer_views(parts@) =~= before.push(part@));
    }
}

/// The status shown for a worktree.
pub fn format_status(
    status: &WorktreeStatus,
    unpushed: &UnpushedCommits,
    upstream: &Option<String>,
    is_locked: bool,
) -> (r: String)
    ensures
        r@ == status_text(*status, *unpushed, *upstream, is_locked),
{
    let mut parts: Vec<Vec<char>> = Vec::new();
    let ghost views = crate::text::buffer_views(parts@);
    if status.has_uncommitted_changes {
        let mut changes: Vec<Vec<char>> = Vec::new();
        if status.modified_count > 0 {
            push_part(&mut changes, to_chars("modified"));
        }
        if status.deleted_count > 0 {
            push_part(&mut changes, to_chars("deleted"));
        }
        if status.untracked_count > 0 {
            push_part(&mut changes, to_chars("untracked"));
        }
        proof {
            assert(crate::text::buffer_views(changes@) =~= change_words(*status));
        }
        if changes.len() > 0 {
            let joined = crate::text::join_chars(&changes, ", ");
            push_part(&mut parts, joined);
        }
    }
    let ghost after_changes = crate::text::buffer_views(parts@);
    let ghost first = if status.has_uncommitted_changes && change_words(*status).len() > 0 {
        seq![join(change_words(*status), ", "@)]
    } else {
        seq![]
    };
    proof {
        assert(after_changes =~= first);
    }
    if unpushed.has_unpushed {
        let mut text = to_chars("unpushed: ");
        push_decimal(&mut text, unpushed.count);
        match upstream {
            Some(u) => {
                push_str(&mut text, " (vs ");
                push_str(&mut text, u.as_str());
                push_str(&mut text, ")");
            },
            None => {
                proof {
                    assert(text@ + seq![] =~= text@);
                }
            },
        }
        push_part(&mut parts, text);
        proof {
            assert(text@ == "unpushed: "@ + decimal(unpushed.count as nat) + upstream_suffix(*upstream));
        }
    }
    let ghost after_unpushed = crate::text::buffer_views(parts@);
    let ghost second = if unpushed.has_unpushed {
        seq![
            "unpushed: "@ + decimal(unpushed.count as nat) + upstream_suffix(*upstream),
        ]
    } else {
        seq![]
    };
    proof {
        assert(after_unpushed =~= first + second);
    }
    if is_locked {
        push_part(&mut parts, to_chars("locked"));
    }
    proof {
        assert(crate::text::buffer_views(parts@) =~= status_parts(
            *status,
            *unpushed,
            *upstream,
            is_locked,
        ));
    }
    if parts.len() == 0 {
        "up to date".to_owned()
    } else {
        let joined = crate::text::join_chars(&parts, " | ");
        from_chars(&joined)
    }
}

/// The width in bytes of a text, which the columns are measured in: what
/// `str::len` gives.
pub open spec fn byte_len(s: Seq<char>) -> usize {
    encode_utf8(s).len() as usize
}

/// The widest path and branch, in bytes.
pub open spec fn column_widths_of(ws: Seq<DisplayWorktree>) -> (usize, usize)
    decreases ws.len(),
{
    if ws.len() == 0 {
        (0, 0)
    } else {
        let (p, b) = column_widths_of(ws.drop_last());
        let lp = byte_len(ws.last().path@);
        let lb = byte_len(ws.last().branch@);
        (if lp > p {
            lp
        } else {
            p
        }, if lb > b {
            lb
        } else {
            b
        })
    }
}

/// The widest path and branch, in bytes, to align the columns.
pub fn column_widths(ws: &Vec<DisplayWorktree>) -> (r: (usize, usize))
    ensures
        r == column_widths_of(ws@),
{
    let mut max_p: usize = 0;
    let mut max_b: usize = 0;
    let mut i: usize = 0;
    while i < ws.len()
        invariant
            i <= ws.len(),
            (max_p, max_b) == column_widths_of(ws@.take(i as int)),
        decreases ws.len() - i,
    {
        proof {
            assert(ws@.take(i + 1).drop_last() =~= ws@.take(i as int));
        }
        let lp = ws[i].path.as_str().len();
        let lb = ws[i].branch.as_str().len();
        if lp > max_p {
            max_p = lp;
        }
        if lb > max_b {
            max_b = lb;
        }
        i = i + 1;
    }
    proof {
        assert(ws@.take(ws.len() as int) =~= ws@);
    }
    (max_p, max_b)
}

/// A worktree as it is shown: its path, the branch it is on, its head and
/// status.
pub fn enrich_worktree(
    wt: &WorktreeInfo,
    status: WorktreeStatus,
    unpushed: UnpushedCommits,
    upstream: Option<String>,
) -> (r: DisplayWorktree)
    ensures
        r.path@ == wt.path@,
        r.branch@ == branch_text(wt.branch),
        r.head@ == wt.head@,
        r.status == status,
        r.unpushed == unpushed,
        r.upstream == upstream,
        r.is_locked == wt.is_locked,
{
    DisplayWorktree {
        path: wt.path.clone(),
        branch: branch_display(&wt.branch),
        head: wt.head.clone(),
        status,
        unpushed,
        upstream,
        is_locked: wt.is_locked,
    }
}

/// The lines of `list --path-only`: a `PATH` heading if asked for, then
/// each worktree's path.
pub fn print_path_only(worktrees: &Vec<WorktreeInfo>, header: bool) -> (r: Vec<String>)
    ensures
        string_views(r@) == (if header {
            seq!["PATH"@]
        } else {
            seq![]
        }) + Seq::new(worktrees@.len(), |i: int| worktrees@[i].path@),
{
    let mut out: Vec<String> = Vec::new();
    if header {
        out.push("PATH".to_owned());
    }
    let ghost head = string_views(out@);
    proof {
        assert(head =~= (if header {
            seq!["PATH"@]
        } else {
            seq![]
        }));
    }
    let mut i: usize = 0;
    while i < worktrees.len()
        invariant
            i <= worktrees.len(),
            string_views(out@) == head + Seq::new(i as nat, |j: int| worktrees@[j].path@),
        decreases worktrees.len() - i,
    {
        let ghost before = string_views(out@);
        out.push(worktrees[i].path.clone());
        proof {
            assert(string_views(out@) =~= before.push(worktrees@[i as int].path@));
            assert(string_views(out@) =~= head + Seq::new((i + 1) as nat, |j: int| worktrees@[j].path@));
        }
        i = i + 1;
    }
    out
}

/// The heading of the list, aligned with the columns.
pub open spec fn header_line(max_path: usize, max_branch: usize) -> Seq<char> {
    pad_right("PATH"@, max_path as nat) + " "@ + pad_right("BRANCH"@, max_branch as nat) + " "@
        + pad_right("COMMIT"@, 7) + " "@ + "STATUS"@
}

/// The heading of the list, in the header style when colors are on.
pub fn print_header(scheme: &ColorScheme, max_path: usize, max_branch: usize) -> (r: String)
    ensures
        r@ == (if scheme.enabled {
            scheme.styled(scheme.theme.header, header_line(max_path, max_branch))
        } else {
            header_line(max_path, max_branch)
        }),
{
    let mut line: Vec<char> = Vec::new();
    push_padded(&mut line, &to_chars("PATH"), max_path);
    push_str(&mut line, " ");
    push_padded(&mut line, &to_chars("BRANCH"), max_branch);
    push_str(&mut line, " ");
    push_padded(&mut line, &to_chars("COMMIT"), 7);
    push_str(&mut line, " ");
    push_str(&mut line, "STATUS");
    proof {
        assert(line@ =~= header_line(max_path, max_branch));
    }
    let text = from_chars(&line);
    if scheme.enabled {
        scheme.header(text.as_str())
    } else {
        text
    }
}

/// The first seven characters of a commit hash.
pub open spec fn short_hash(head: Seq<char>) -> Seq<char> {
    if head.len() <= 7 {
        head
    } else {
        head.take(7)
    }
}

/// The line of a worktree: path, branch, short hash and status, in
/// columns; with colors on, the branch, hash and status are styled.
pub open spec fn worktree_line(
    scheme: ColorScheme,
    wt: DisplayWorktree,
    max_path: usize,
    max_branch: usize,
) -> Seq<char> {
    let status = status_text(wt.status, wt.unpushed, wt.upstream, wt.is_locked);
    let branch = pad_right(wt.branch@, max_branch as nat);
    let hash = pad_right(short_hash(wt.head@), 7);
    if scheme.enabled {
        pad_right(wt.path@, max_path as nat) + " "@ + scheme.styled(scheme.theme.branch, branch)
            + " "@ + scheme.styled(scheme.theme.hash, hash) + " "@ + scheme.styled(
            scheme.theme.dimmed,
            status,
        )
    } else {
        pad_right(wt.path@, max_path as nat) + " "@ + branch + " "@ + hash + " "@ + status
    }
}

/// The line of a worktree.
pub fn display_worktree(scheme: &ColorScheme, wt: &DisplayWorktree, max_path: usize, max_branch: usize) -> (r:
    String)
    ensures
        r@ == worktree_line(*scheme, *wt, max_path, max_branch),
{
    let head = to_chars(wt.head.as_str());
    let short = if head.len() <= 7 {
        head
    } else {
        slice_chars(&head, 0, 7)
    };
    proof {
        assert(short@ =~= short_hash(wt.head@));
    }
    let status = format_status(&wt.status, &wt.unpushed, &wt.upstream, wt.is_locked);
    let mut line: Vec<char> = Vec::new();
    push_padded(&mut line, &to_chars(wt.path.as_str()), max_path);
    push_str(&mut line, " ");
    let mut branch: Vec<char> = Vec::new();
    push_padded(&mut branch, &to_chars(wt.branch.as_str()), max_branch);
    let mut hash: Vec<char> = Vec::new();
    push_padded(&mut hash, &short, 7);
    proof {
        assert(branch@ =~= pad_right(wt.branch@, max_branch as nat));
        assert(hash@ =~= pad_right(short_hash(wt.head@), 7));
    }
    if scheme.enabled {
        let b = scheme.branch(from_chars(&branch).as_str());
        let h = scheme.hash(from_chars(&hash).as_str());
        let st = scheme.dimmed(status.as_str());
        push_str(&mut line, b.as_str());
        push_str(&mut line, " ");
        push_str(&mut line, h.as_str());
        push_str(&mut line, " ");
        push_str(&mut line, st.as_str());
    } else {
        push_all(&mut line, &branch);
        push_str(&mut line, " ");
        push_all(&mut line, &hash);
        push_str(&mut line, " ");
        push_str(&mut line, status.as_str());
    }
    from_chars(&line)
}

} // verus!
