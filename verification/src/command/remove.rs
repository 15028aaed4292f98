//! The `remove` command: which worktrees may be removed, the warnings about
//! unsaved work, and what is refused.

use vstd::prelude::*;
use crate::error::Error;
use crate::git::{UnpushedCommits, WorktreeInfo, WorktreeStatus};
use crate::interactive::SafetyWarning;
use crate::output::Output;
use crate::paths::{paths_equal, same_path};
use crate::text::{decimal, from_chars, push_decimal, push_str, string_views, to_chars};

verus! {

/// Whether the first worktree listed at `path` is the main one.
pub open spec fn listed_as_main(path: Seq<char>, wts: Seq<WorktreeInfo>) -> bool
    decreases wts.len(),
{
    if wts.len() == 0 {
        false
    } else if same_path(wts[0].path@, path) {
        wts[0].is_main
    } else {
        listed_as_main(path, wts.drop_first())
    }
}

/// Whether `path` is the main worktree, by the first worktree listed at it.
pub fn is_main_worktree(path: &str, worktrees: &Vec<WorktreeInfo>) -> (r: bool)
    ensures
        r == listed_as_main(path@, worktrees@),
{
    let mut i: usize = 0;
    proof {
        assert(worktrees@.skip(0) =~= worktrees@);
    }
    while i < worktrees.len()
        invariant
            i <= worktrees.len(),
            listed_as_main(path@, worktrees@) == listed_as_main(path@, worktrees@.skip(i as int)),
        decreases worktrees.len() - i,
    {
        proof {
            assert(worktrees@.skip(i as int).drop_first() =~= worktrees@.skip(i + 1));
            assert(worktrees@.skip(i as int)[0] == worktrees@[i as int]);
        }
        if paths_equal(worktrees[i].path.as_str(), path) {
            return worktrees[i].is_main;
        }
        i = i + 1;
    }
    false
}

/// Whether some worktree is listed at `path`.
pub open spec fn is_listed(path: Seq<char>, wts: Seq<WorktreeInfo>) -> bool {
    exists|i: int| 0 <= i < wts.len() && same_path(#[trigger] wts[i].path@, path)
}

/// Check that a path names a listed worktree.
pub fn find_listed_worktree(path: &str, canonical: &str, worktrees: &Vec<WorktreeInfo>) -> (r: Result<String, Error>)
    ensures
        is_listed(canonical@, worktrees@) ==> (r matches Ok(p) && p@ == canonical@),
        !is_listed(canonical@, worktrees@) ==> (r matches Err(Error::WorktreeNotFound { path: p })
            && p@ == path@),
{
    let mut i: usize = 0;
    while i < worktrees.len()
        invariant
            i <= worktrees.len(),
            forall|j: int| 0 <= j < i ==> !same_path(#[trigger] worktrees@[j].path@, canonical@),
        decreases worktrees.len() - i,
    {
        if paths_equal(worktrees[i].path.as_str(), canonical) {
            return Ok(canonical.to_owned());
        }
        i = i + 1;
    }
    Err(Error::WorktreeNotFound { path: path.to_owned() })
}

/// Refuse to remove the main worktree: the error names the first target
/// that is it.
pub fn check_not_main(targets: &Vec<String>, worktrees: &Vec<WorktreeInfo>) -> (r: Result<(), Error>)
    ensures
        (forall|i: int| 0 <= i < targets@.len() ==> !listed_as_main(#[trigger] targets@[i]@, worktrees@))
            ==> r is Ok,
        r matches Err(e) ==> exists|i: int|
            0 <= i < targets@.len() && listed_as_main(#[trigger] targets@[i]@, worktrees@) && (forall|j: int|
                0 <= j < i ==> !listed_as_main(#[trigger] targets@[j]@, worktrees@)) && (e
                matches Error::CannotRemoveMainWorktree { path } && path@ == targets@[i]@),
        (exists|i: int| 0 <= i < targets@.len() && listed_as_main(#[trigger] targets@[i]@, worktrees@))
            ==> r is Err,
{
    let mut i: usize = 0;
    while i < targets.len()
        invariant
            i <= targets.len(),
            forall|j: int| 0 <= j < i ==> !listed_as_main(#[trigger] targets@[j]@, worktrees@),
        decreases targets.len() - i,
    {
        if is_main_worktree(targets[i].as_str(), worktrees) {
            return Err(Error::CannotRemoveMainWorktree { path: targets[i].clone() });
        }
        i = i + 1;
    }
    Ok(())
}

/// The warning for a target with uncommitted changes or unpushed commits.
pub fn safety_warning_for(path: &str, status: &WorktreeStatus, unpushed: &UnpushedCommits) -> (r:
    Option<SafetyWarning>)
    ensures
        (status.has_uncommitted_changes || unpushed.has_unpushed) ==> (r matches Some(w) && w.path@
            == path@ && w.has_uncommitted == status.has_uncommitted_changes && w.modified_count
            == status.modified_count && w.deleted_count == status.deleted_count
            && w.untracked_count == status.untracked_count && w.has_unpushed
            == unpushed.has_unpushed && w.unpushed_count == unpushed.count),
        !(status.has_uncommitted_changes || unpushed.has_unpushed) ==> r is None,
{
    if status.has_uncommitted_changes || unpushed.has_unpushed {
        Some(
            SafetyWarning {
                path: path.to_owned(),
                has_uncommitted: status.has_uncommitted_changes,
                modified_count: status.modified_count,
                deleted_count: status.deleted_count,
                untracked_count: status.untracked_count,
                has_unpushed: unpushed.has_unpushed,
                unpushed_count: unpushed.count,
            },
        )
    } else {
        None
    }
}

/// Whether a target has work that removal would lose.
pub open spec fn has_unsaved_work(status: WorktreeStatus, unpushed: UnpushedCommits) -> bool {
    status.has_uncommitted_changes || unpushed.has_unpushed
}

/// Whether a warning is the one for `path` with this status and these
/// unpushed commits.
pub open spec fn warning_describes(
    w: SafetyWarning,
    path: Seq<char>,
    status: WorktreeStatus,
    unpushed: UnpushedCommits,
) -> bool {
    &&& w.path@ == path
    &&& w.has_uncommitted == status.has_uncommitted_changes
    &&& w.modified_count == status.modified_count
    &&& w.deleted_count == status.deleted_count
    &&& w.untracked_count == status.untracked_count
    &&& w.has_unpushed == unpushed.has_unpushed
    &&& w.unpushed_count == unpushed.count
}

/// The positions, in order, of the targets with unsaved work.
pub open spec fn warned_positions(statuses: Seq<WorktreeStatus>, unpushed: Seq<UnpushedCommits>) -> Seq<int>
    decreases statuses.len(),
{
    if statuses.len() == 0 {
        seq![]
    } else {
        let n = statuses.len() - 1;
        let before = warned_positions(statuses.drop_last(), unpushed.take(n));
        if has_unsaved_work(statuses[n], unpushed[n]) {
            before.push(n)
        } else {
            before
        }
    }
}

proof fn lemma_warned_positions_bounds(statuses: Seq<WorktreeStatus>, unpushed: Seq<UnpushedCommits>)
    requires
        unpushed.len() == statuses.len(),
    ensures
        forall|k: int|
            0 <= k < warned_positions(statuses, unpushed).len() ==> 0 <= #[trigger] warned_positions(
                statuses,
                unpushed,
            )[k] < statuses.len(),
    decreases statuses.len(),
{
    if statuses.len() > 0 {
        let n = statuses.len() - 1;
        let before = warned_positions(statuses.drop_last(), unpushed.take(n));
        lemma_warned_positions_bounds(statuses.drop_last(), unpushed.take(n));
        let all = warned_positions(statuses, unpushed);
        assert forall|k: int| 0 <= k < all.len() implies 0 <= #[trigger] all[k] < statuses.len() by {
            if k < before.len() {
                assert(all[k] == before[k]);
            }
        }
    }
}

/// The warnings of the targets to remove, in order: one for each target
/// with uncommitted changes or unpushed commits, none for the others.
/// `statuses[i]` and `unpushed[i]` are what git reported for `targets[i]`.
pub fn collect_safety_warnings(
    targets: &Vec<String>,
    statuses: &Vec<WorktreeStatus>,
    unpushed: &Vec<UnpushedCommits>,
) -> (r: Vec<SafetyWarning>)
    requires
        statuses@.len() == targets@.len(),
        unpushed@.len() == targets@.len(),
    ensures
        r@.len() == warned_positions(statuses@, unpushed@).len(),
        forall|k: int|
            0 <= k < r@.len() ==> {
                let p = warned_positions(statuses@, unpushed@)[k];
                &&& 0 <= p < targets@.len()
                &&& warning_describes(#[trigger] r@[k], targets@[p]@, statuses@[p], unpushed@[p])
            },
{
    let mut out: Vec<SafetyWarning> = Vec::new();
    let mut i: usize = 0;
    while i < targets.len()
        invariant
            i <= targets@.len(),
            statuses@.len() == targets@.len(),
            unpushed@.len() == targets@.len(),
            out@.len() == warned_positions(statuses@.take(i as int), unpushed@.take(i as int)).len(),
            forall|k: int|
                0 <= k < out@.len() ==> {
                    let j = warned_positions(statuses@.take(i as int), unpushed@.take(i as int))[k];
                    &&& 0 <= j < i
                    &&& warning_describes(#[trigger] out@[k], targets@[j]@, statuses@[j], unpushed@[j])
                },
        decreases targets@.len() - i,
    {
        let ghost st = statuses@.take(i + 1);
        let ghost up = unpushed@.take(i + 1);
        proof {
            assert(st.drop_last() =~= statuses@.take(i as int));
            assert(up.take(i as int) =~= unpushed@.take(i as int));
            lemma_warned_positions_bounds(statuses@.take(i as int), unpushed@.take(i as int));
        }
        let w = safety_warning_for(&targets[i], &statuses[i], &unpushed[i]);
        match w {
            Some(w) => {
                out.push(w);
            },
            None => {},
        }
        i = i + 1;
    }
    proof {
        assert(statuses@.take(i as int) =~= statuses@);
        assert(unpushed@.take(i as int) =~= unpushed@);
        let wp = warned_positions(statuses@, unpushed@);
        assert(warned_positions(statuses@.take(i as int), unpushed@.take(i as int)) == wp);
        assert forall|k: int| 0 <= k < out@.len() implies 0 <= #[trigger] wp[k] < targets@.len()
            && warning_describes(out@[k], targets@[wp[k]]@, statuses@[wp[k]], unpushed@[wp[k]]) by {
            let j = warned_positions(statuses@.take(i as int), unpushed@.take(i as int))[k];
            assert(j == wp[k]);
            assert(warning_describes(out@[k], targets@[j]@, statuses@[j], unpushed@[j]));
        }
    }
    out
}

/// Without a terminal to ask, removal with warnings is refused by the
/// first warning: uncommitted changes first, else unpushed commits.
pub fn refusal_without_prompt(warnings: &Vec<SafetyWarning>) -> (r: Error)
    requires
        warnings@.len() > 0,
    ensures
        warnings@[0].has_uncommitted ==> (r matches Error::WorktreeHasUncommittedChanges { path }
            && path@ == warnings@[0].path@),
        !warnings@[0].has_uncommitted ==> (r matches Error::WorktreeHasUnpushedCommits { path }
            && path@ == warnings@[0].path@),
{
    let first = &warnings[0];
    if first.has_uncommitted {
        Error::WorktreeHasUncommittedChanges { path: first.path.clone() }
    } else {
        Error::WorktreeHasUnpushedCommits { path: first.path.clone() }
    }
}

/// The messages of a warning, one per kind of unsaved work.
pub open spec fn warning_messages(w: SafetyWarning) -> Seq<Seq<char>> {
    (if w.modified_count > 0 {
        seq![decimal(w.modified_count as nat) + " modified file(s)"@]
    } else {
        seq![]
    }) + (if w.deleted_count > 0 {
        seq![decimal(w.deleted_count as nat) + " deleted file(s)"@]
    } else {
        seq![]
    }) + (if w.untracked_count > 0 {
        seq![decimal(w.untracked_count as nat) + " untracked file(s)"@]
    } else {
        seq![]
    }) + (if w.has_unpushed {
        seq![decimal(w.unpushed_count as nat) + " unpushed commit(s)"@]
    } else {
        seq![]
    })
}

fn push_message(out: &mut Vec<String>, output: &Output, path: &str, n: usize, what: &str)
    ensures
        output.quiet ==> final(out)@ == old(out)@,
        !output.quiet ==> string_views(final(out)@) == string_views(old(out)@).push(
            "Warning: "@ + path@ + " - "@ + (decimal(n as nat) + what@),
        ),
{
    let mut msg: Vec<char> = Vec::new();
    push_decimal(&mut msg, n);
    push_str(&mut msg, what);
    let text = from_chars(&msg);
    let ghost before = string_views(out@);
    match output.safety_warning(path, text.as_str()) {
        Some(line) => {
            out.push(line);
            proof {
                assert(string_views(out@) =~= before.push(
                    "Warning: "@ + path@ + " - "@ + (decimal(n as nat) + what@),
                ));
            }
        },
        None => {},
    }
}

/// The lines of a warning shown in a dry run; none in quiet mode.
pub fn display_warning(output: &Output, warning: &SafetyWarning) -> (r: Vec<String>)
    ensures
        output.quiet ==> r@.len() == 0,
        !output.quiet ==> string_views(r@) == warning_messages(*warning).map_values(
            |m: Seq<char>| "Warning: "@ + warning.path@ + " - "@ + m,
        ),
{
    let mut out: Vec<String> = Vec::new();
    let p = warning.path.as_str();
    let ghost prefix = |m: Seq<char>| "Warning: "@ + warning.path@ + " - "@ + m;
    let ghost s0 = string_views(out@);
    if warning.modified_count > 0 {
        push_message(&mut out, output, p, warning.modified_count, " modified file(s)");
    }
    let ghost s1 = string_views(out@);
    if warning.deleted_count > 0 {
        push_message(&mut out, output, p, warning.deleted_count, " deleted file(s)");
    }
    let ghost s2 = string_views(out@);
    if warning.untracked_count > 0 {
        push_message(&mut out, output, p, warning.untracked_count, " untracked file(s)");
    }
    let ghost s3 = string_views(out@);
    if warning.has_unpushed {
        push_message(&mut out, output, p, warning.unpushed_count, " unpushed commit(s)");
    }
    proof {
        if !output.quiet {
            assert(string_views(out@) =~= warning_messages(*warning).map_values(prefix));
        }
    }
    out
}


// ---------------------------------------------------------------------------
// The plan of `gwtx remove`
// ---------------------------------------------------------------------------

/// One step of `gwtx remove`, for the target at the given position.
#[derive(Debug, Clone, Copy, PartialEq, Eq, Structural)]
pub enum RemoveStep {
    /// Print the dry-run lines of the pre_remove hooks.
    PreviewPreRemove(usize),
    /// Run the pre_remove hooks; their failure stops the command.
    RunPreRemove(usize),
    /// Print what would be removed.
    PreviewRemoval(usize),
    /// Remove the worktree (forced when the plan says so).
    Remove(usize),
    /// Print the dry-run lines of the post_remove hooks.
    PreviewPostRemove(usize),
    /// Run the post_remove hooks; their failure only warns.
    RunPostRemove(usize),
}

/// What `gwtx remove` does once its targets are known.
#[derive(Debug, Clone)]
pub struct RemovePlan {
    /// Print the warnings (a dry run with unsaved work).
    pub show_warnings: bool,
    /// Ask before removing (unsaved work, a terminal, not a dry run).
    pub confirm: bool,
    /// Remove with `--force` (asked for, or unsaved work was confirmed).
    pub force: bool,
    /// The steps, target after target.
    pub steps: Vec<RemoveStep>,
}

/// The steps for the target at position `i`: its pre_remove hooks, its
/// removal, its post_remove hooks; previews only on a dry run.
pub open spec fn target_steps(i: usize, has_pre: bool, has_post: bool, dry_run: bool) -> Seq<RemoveStep> {
    (if has_pre {
        seq![
            if dry_run {
                RemoveStep::PreviewPreRemove(i)
            } else {
                RemoveStep::RunPreRemove(i)
            },
        ]
    } else {
        seq![]
    }) + seq![
        if dry_run {
            RemoveStep::PreviewRemoval(i)
        } else {
            RemoveStep::Remove(i)
        },
    ] + (if has_post {
        seq![
            if dry_run {
                RemoveStep::PreviewPostRemove(i)
            } else {
                RemoveStep::RunPostRemove(i)
            },
        ]
    } else {
        seq![]
    })
}

/// The steps for the first `n` targets, in order.
pub open spec fn remove_steps(n: nat, has_pre: bool, has_post: bool, dry_run: bool) -> Seq<RemoveStep>
    decreases n,
{
    if n == 0 {
        seq![]
    } else {
        remove_steps((n - 1) as nat, has_pre, has_post, dry_run) + target_steps(
            (n - 1) as usize,
            has_pre,
            has_post,
            dry_run,
        )
    }
}

/// Whether a step removes a worktree or runs a hook.
pub open spec fn step_acts(s: RemoveStep) -> bool {
    s is RunPreRemove || s is Remove || s is RunPostRemove
}

proof fn lemma_dry_steps_preview(n: nat, has_pre: bool, has_post: bool)
    ensures
        forall|k: int|
            0 <= k < remove_steps(n, has_pre, has_post, true).len() ==> !step_acts(
                #[trigger] remove_steps(n, has_pre, has_post, true)[k],
            ),
    decreases n,
{
    if n > 0 {
        lemma_dry_steps_preview((n - 1) as nat, has_pre, has_post);
        let before = remove_steps((n - 1) as nat, has_pre, has_post, true);
        let t = target_steps((n - 1) as usize, has_pre, has_post, true);
        let all = remove_steps(n, has_pre, has_post, true);
        assert forall|k: int| 0 <= k < all.len() implies !step_acts(#[trigger] all[k]) by {
            if k < before.len() {
                assert(all[k] == before[k]);
            } else {
                assert(all[k] == t[k - before.len()]);
            }
        }
    }
}

fn push_target_steps(out: &mut Vec<RemoveStep>, i: usize, has_pre: bool, has_post: bool, dry_run: bool)
    ensures
        final(out)@ == old(out)@ + target_steps(i, has_pre, has_post, dry_run),
{
    let ghost start = out@;
    if has_pre {
        out.push(if dry_run { RemoveStep::PreviewPreRemove(i) } else { RemoveStep::RunPreRemove(i) });
    }
    out.push(if dry_run { RemoveStep::PreviewRemoval(i) } else { RemoveStep::Remove(i) });
    if has_post {
        out.push(if dry_run { RemoveStep::PreviewPostRemove(i) } else { RemoveStep::RunPostRemove(i) });
    }
    proof {
        assert(out@ =~= start + target_steps(i, has_pre, has_post, dry_run));
    }
}

/// The plan of `gwtx remove` for resolved targets.  A target that is the
/// main worktree refuses the whole command, naming the first such target,
/// before any hook or removal.  With unsaved work (`warnings`, gathered
/// unless `--force`): a dry run shows the warnings; otherwise a terminal is
/// asked, and without one the command is refused by the first warning.
/// Then each target has its pre_remove hooks, its removal and its
/// post_remove hooks; a dry run only previews them.
pub fn remove_plan(
    targets: &Vec<String>,
    worktrees: &Vec<WorktreeInfo>,
    warnings: &Vec<SafetyWarning>,
    force: bool,
    dry_run: bool,
    interactive: bool,
    has_pre_remove: bool,
    has_post_remove: bool,
) -> (r: Result<RemovePlan, Error>)
    ensures
        (exists|i: int| 0 <= i < targets@.len() && listed_as_main(#[trigger] targets@[i]@, worktrees@))
            ==> (r matches Err(e) && exists|i: int|
            0 <= i < targets@.len() && listed_as_main(#[trigger] targets@[i]@, worktrees@) && (forall|j: int|
                0 <= j < i ==> !listed_as_main(#[trigger] targets@[j]@, worktrees@)) && (e
                matches Error::CannotRemoveMainWorktree { path } && path@ == targets@[i]@)),
        (forall|i: int| 0 <= i < targets@.len() ==> !listed_as_main(#[trigger] targets@[i]@, worktrees@))
            ==> {
            if warnings@.len() > 0 && !dry_run && !interactive {
                &&& warnings@[0].has_uncommitted ==> (r matches Err(
                    Error::WorktreeHasUncommittedChanges { path },
                ) && path@ == warnings@[0].path@)
                &&& !warnings@[0].has_uncommitted ==> (r matches Err(
                    Error::WorktreeHasUnpushedCommits { path },
                ) && path@ == warnings@[0].path@)
            } else {
                r matches Ok(p) && p.show_warnings == (warnings@.len() > 0 && dry_run) && p.confirm == (
                warnings@.len() > 0 && !dry_run && interactive) && p.force == (force || warnings@.len()
                > 0) && p.steps@ == remove_steps(
                    targets@.len(),
                    has_pre_remove,
                    has_post_remove,
                    dry_run,
                )
            }
        },
        dry_run ==> (r matches Ok(p) ==> forall|k: int|
            0 <= k < p.steps@.len() ==> !step_acts(#[trigger] p.steps@[k])),
{
    match check_not_main(targets, worktrees) {
        Err(e) => {
            return Err(e);
        },
        Ok(()) => {},
    }
    let has_warnings = warnings.len() > 0;
    if has_warnings && !dry_run && !interactive {
        return Err(refusal_without_prompt(warnings));
    }
    let mut steps: Vec<RemoveStep> = Vec::new();
    let mut i: usize = 0;
    while i < targets.len()
        invariant
            i <= targets.len(),
            steps@ == remove_steps(i as nat, has_pre_remove, has_post_remove, dry_run),
        decreases targets.len() - i,
    {
        push_target_steps(&mut steps, i, has_pre_remove, has_post_remove, dry_run);
        i = i + 1;
    }
    proof {
        if dry_run {
            lemma_dry_steps_preview(targets@.len(), has_pre_remove, has_post_remove);
        }
    }
    Ok(
        RemovePlan {
            show_warnings: has_warnings && dry_run,
            confirm: has_warnings && !dry_run && interactive,
            force: force || has_warnings,
            steps,
        },
    )
}

/// The answer to the removal confirmation: declining aborts.
pub fn removal_answer(accepted: bool) -> (r: Result<(), Error>)
    ensures
        accepted ==> r is Ok,
        !accepted ==> r matches Err(Error::Aborted),
{
    if accepted {
        Ok(())
    } else {
        Err(Error::Aborted)
    }
}

} // verus!
