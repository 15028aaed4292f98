//! The `add` command: glob expansion of link entries, conflict handling of
//! each file operation, and the checks made before a worktree is created.

use vstd::prelude::*;
use crate::cli::AddArgs;
use crate::config::{Config, Link, OnConflict, Worktree, generated_path};
use crate::error::Error;
use crate::glob::{build_glob, glob_is_match, glob_matches, glob_pattern_limit, glob_pattern_valid};
use crate::interactive::ConflictChoice;
use crate::paths::{components, components_of, components_start_with, join_path, join_paths, paths_equal, same_path};
use crate::text::{
    buffer_views, contains_char, from_chars, push_str, slice_chars, starts_with,
    starts_with_str, to_chars,
};

verus! {

// ---------------------------------------------------------------------------
// Glob patterns
// ---------------------------------------------------------------------------

/// Whether a path holds a glob pattern: one of `*`, `?` or `[`.
pub open spec fn has_glob_pattern(path: Seq<char>) -> bool {
    path.contains('*') || path.contains('?') || path.contains('[')
}

/// Check if a path contains glob patterns.
pub fn contains_glob_pattern(path: &str) -> (r: bool)
    ensures
        r == has_glob_pattern(path@),
{
    let cs = to_chars(path);
    contains_char(&cs, '*') || contains_char(&cs, '?') || contains_char(&cs, '[')
}

/// An entry met walking the repository: its path relative to the root
/// and whether it is a directory.
#[derive(Debug, Clone)]
pub struct WalkEntry {
    pub rel_path: String,
    pub is_dir: bool,
}

/// Whether `base` begins `full`, component by component: std's
/// `Path::starts_with`.
pub open spec fn path_starts_with(full: Seq<char>, base: Seq<char>) -> bool {
    components(base).is_prefix_of(components(full))
}

fn path_starts_with_exec(full: &str, base: &str) -> (r: bool)
    ensures
        r == path_starts_with(full@, base@),
{
    let f = components_of(&to_chars(full));
    let b = components_of(&to_chars(base));
    components_start_with(&f, &b)
}

/// Whether a path lies inside one of the directories matched already.
pub open spec fn inside_matched_dir(rel: Seq<char>, dirs: Seq<Seq<char>>) -> bool {
    exists|i: int|
        0 <= i < dirs.len() && path_starts_with(rel, #[trigger] dirs[i]) && !same_path(rel, dirs[i])
}

/// Whether a path is one of the tracked_files files.
pub open spec fn is_tracked(rel: Seq<char>, tracked_files: Seq<Seq<char>>) -> bool {
    exists|i: int| 0 <= i < tracked_files.len() && same_path(#[trigger] tracked_files[i], rel)
}

/// The state of the expansion: the directories matched, whose contents are
/// not looked at, and the paths found.
pub struct ExpandState {
    pub dirs: Seq<Seq<char>>,
    pub found: Seq<Seq<char>>,
}

/// One entry of the walk: it is kept when it is not inside a matched
/// directory, matches the pattern, and is not a tracked_files file that is to be
/// left out; a kept directory's contents are skipped from then on.
pub open spec fn expand_step(
    st: ExpandState,
    e: WalkEntry,
    pattern: Seq<char>,
    ignore_tracked: bool,
    tracked_files: Seq<Seq<char>>,
) -> ExpandState {
    let rel = e.rel_path@;
    if inside_matched_dir(rel, st.dirs) {
        st
    } else if !glob_matches(pattern, rel) {
        st
    } else if ignore_tracked && is_tracked(rel, tracked_files) {
        st
    } else {
        ExpandState {
            dirs: if e.is_dir {
                st.dirs.push(rel)
            } else {
                st.dirs
            },
            found: st.found.push(rel),
        }
    }
}

pub open spec fn expand_fold(
    entries: Seq<WalkEntry>,
    pattern: Seq<char>,
    ignore_tracked: bool,
    tracked_files: Seq<Seq<char>>,
) -> ExpandState
    decreases entries.len(),
{
    if entries.len() == 0 {
        ExpandState { dirs: seq![], found: seq![] }
    } else {
        expand_step(
            expand_fold(entries.drop_last(), pattern, ignore_tracked, tracked_files),
            entries.last(),
            pattern,
            ignore_tracked,
            tracked_files,
        )
    }
}

/// The paths that a glob link entry expands to, in the order of the walk.
pub open spec fn glob_expansion(
    entries: Seq<WalkEntry>,
    pattern: Seq<char>,
    ignore_tracked: bool,
    tracked_files: Seq<Seq<char>>,
) -> Seq<Seq<char>> {
    expand_fold(entries, pattern, ignore_tracked, tracked_files).found
}

/// `l` with source and target `p`, tracked_files files no longer to be checked.
pub open spec fn link_at(l: Link, p: Seq<char>, e: Link) -> bool {
    &&& e.source@ == p
    &&& e.target@ == p
    &&& e.on_conflict == l.on_conflict
    &&& e.description == l.description
    &&& !e.ignore_tracked
}

fn clone_opt(o: &Option<String>) -> (r: Option<String>)
    ensures
        r == *o,
{
    match o {
        Some(s) => Some(s.clone()),
        None => None,
    }
}

fn link_for(link: &Link, p: &String) -> (r: Link)
    ensures
        link_at(*link, p@, r),
{
    Link {
        source: p.clone(),
        target: p.clone(),
        on_conflict: link.on_conflict,
        description: clone_opt(&link.description),
        ignore_tracked: false,
    }
}

fn tracked_contains(tracked_files: &Vec<String>, rel: &str) -> (r: bool)
    ensures
        r == is_tracked(rel@, crate::text::string_views(tracked_files@)),
{
    let ghost tv = crate::text::string_views(tracked_files@);
    let mut i: usize = 0;
    while i < tracked_files.len()
        invariant
            i <= tracked_files.len(),
            tv == crate::text::string_views(tracked_files@),
            forall|j: int| 0 <= j < i ==> !same_path(#[trigger] tv[j], rel@),
        decreases tracked_files.len() - i,
    {
        if paths_equal(tracked_files[i].as_str(), rel) {
            proof {
                assert(same_path(tv[i as int], rel@));
            }
            return true;
        }
        i = i + 1;
    }
    false
}

fn inside_dirs(dirs: &Vec<String>, rel: &str) -> (r: bool)
    ensures
        r == inside_matched_dir(rel@, crate::text::string_views(dirs@)),
{
    let ghost dv = crate::text::string_views(dirs@);
    let mut i: usize = 0;
    while i < dirs.len()
        invariant
            i <= dirs.len(),
            dv == crate::text::string_views(dirs@),
            forall|j: int|
                0 <= j < i ==> !(path_starts_with(rel@, #[trigger] dv[j]) && !same_path(rel@, dv[j])),
        decreases dirs.len() - i,
    {
        if path_starts_with_exec(rel, dirs[i].as_str()) && !paths_equal(rel, dirs[i].as_str()) {
            proof {
                assert(path_starts_with(rel@, dv[i as int]) && !same_path(rel@, dv[i as int]));
            }
            return true;
        }
        i = i + 1;
    }
    false
}

/// Expand a link entry with a glob pattern into one entry per path found.
///
/// `entries` are what a walk of the repository met, in order, `.git`
/// excluded; `tracked_files` the files git tracks, which are left out when the
/// entry asks for it.  An entry without a pattern is kept as it is.  An
/// invalid pattern is a configuration error.
pub fn expand_link(link: &Link, entries: &Vec<WalkEntry>, tracked_files: &Vec<String>) -> (r: Result<Vec<Link>, Error>)
    requires
        link.source@.len() < glob_pattern_limit(),
    ensures
        !has_glob_pattern(link.source@) ==> (r matches Ok(v) && v@.len() == 1 && v@[0].source@
            == link.source@ && v@[0].target@ == link.target@ && v@[0].on_conflict == link.on_conflict
            && v@[0].description == link.description && v@[0].ignore_tracked == link.ignore_tracked),
        has_glob_pattern(link.source@) && !glob_pattern_valid(link.source@) ==> (r matches Err(
            Error::ConfigValidation { message },
        ) && starts_with(message@, "Invalid glob pattern '"@ + link.source@ + "': "@)),
        has_glob_pattern(link.source@) && glob_pattern_valid(link.source@) ==> (r matches Ok(v) && {
            let found = glob_expansion(
                entries@,
                link.source@,
                link.ignore_tracked,
                crate::text::string_views(tracked_files@),
            );
            &&& v@.len() == found.len()
            &&& forall|i: int| 0 <= i < v@.len() ==> link_at(*link, found[i], #[trigger] v@[i])
        }),
{
    if !contains_glob_pattern(link.source.as_str()) {
        let mut v: Vec<Link> = Vec::new();
        v.push(
            Link {
                source: link.source.clone(),
                target: link.target.clone(),
                on_conflict: link.on_conflict,
                description: clone_opt(&link.description),
                ignore_tracked: link.ignore_tracked,
            },
        );
        return Ok(v);
    }
    let glob = match build_glob(link.source.as_str()) {
        Ok(g) => g,
        Err(e) => {
            let mut msg = to_chars("Invalid glob pattern '");
            push_str(&mut msg, link.source.as_str());
            push_str(&mut msg, "': ");
            let ghost prefix = msg@;
            push_str(&mut msg, e.as_str());
            proof {
                assert(msg@.take(prefix.len() as int) =~= prefix);
            }
            return Err(Error::ConfigValidation { message: from_chars(&msg) });
        },
    };
    let ghost pattern = link.source@;
    let ghost tv = crate::text::string_views(tracked_files@);
    let mut dirs: Vec<String> = Vec::new();
    let mut results: Vec<Link> = Vec::new();
    let ghost found: Seq<Seq<char>> = seq![];
    let mut i: usize = 0;
    while i < entries.len()
        invariant
            i <= entries.len(),
            glob.pattern() == pattern,
            pattern == link.source@,
            tv == crate::text::string_views(tracked_files@),
            crate::text::string_views(dirs@) == expand_fold(
                entries@.take(i as int),
                pattern,
                link.ignore_tracked,
                tv,
            ).dirs,
            found == expand_fold(entries@.take(i as int), pattern, link.ignore_tracked, tv).found,
            results@.len() == found.len(),
            forall|j: int| 0 <= j < results@.len() ==> link_at(*link, found[j], #[trigger] results@[j]),
        decreases entries.len() - i,
    {
        proof {
            assert(entries@.take(i + 1).drop_last() =~= entries@.take(i as int));
            assert(entries@.take(i + 1).last() == entries@[i as int]);
        }
        let entry = &entries[i];
        let rel = entry.rel_path.as_str();
        if inside_dirs(&dirs, rel) {
        } else if !glob_is_match(&glob, rel) {
        } else if link.ignore_tracked && tracked_contains(tracked_files, rel) {
        } else {
            if entry.is_dir {
                let ghost before = crate::text::string_views(dirs@);
                dirs.push(entry.rel_path.clone());
                proof {
                    assert(crate::text::string_views(dirs@) =~= before.push(rel@));
                }
            }
            let l = link_for(link, &entry.rel_path);
            results.push(l);
            proof {
                found = found.push(rel@);
            }
        }
        i = i + 1;
    }
    proof {
        assert(entries@.take(entries.len() as int) =~= entries@);
    }
    Ok(results)
}

// ---------------------------------------------------------------------------
// Conflicts of file operations
// ---------------------------------------------------------------------------

/// What to do about a file operation.
#[derive(Debug, Clone, Copy, PartialEq, Eq, Structural)]
pub enum OperationDecision {
    /// The target exists and no mode is set: ask the user.
    Prompt,
    /// Cancel everything.
    Abort,
    /// Leave the existing target alone.
    Skip,
    /// Delete the existing target, then perform the operation.
    Overwrite,
    /// Rename the existing target to `*.bak`, then perform the operation.
    Backup,
    /// No conflict: perform the operation.
    Perform,
}

/// The decision for a conflict resolved in `mode`.
pub open spec fn decision_for(mode: OnConflict) -> OperationDecision {
    match mode {
        OnConflict::Abort => OperationDecision::Abort,
        OnConflict::Skip => OperationDecision::Skip,
        OnConflict::Overwrite => OperationDecision::Overwrite,
        OnConflict::Backup => OperationDecision::Backup,
    }
}

fn decision_exec(mode: OnConflict) -> (r: OperationDecision)
    ensures
        r == decision_for(mode),
{
    match mode {
        OnConflict::Abort => OperationDecision::Abort,
        OnConflict::Skip => OperationDecision::Skip,
        OnConflict::Overwrite => OperationDecision::Overwrite,
        OnConflict::Backup => OperationDecision::Backup,
    }
}

/// The decision for a file operation, and the mode kept for later
/// conflicts.  Without a conflict it is performed.  With one, the mode
/// chosen for all later conflicts comes first, then the entry's configured
/// mode, then the user's answer (`choice`, once asked); an answer for all
/// later conflicts is kept.
pub open spec fn operation_decision(
    conflict: bool,
    override_mode: Option<OnConflict>,
    config_mode: Option<OnConflict>,
    choice: Option<ConflictChoice>,
) -> (OperationDecision, Option<OnConflict>) {
    if !conflict {
        (OperationDecision::Perform, override_mode)
    } else if override_mode is Some {
        (decision_for(override_mode->0), override_mode)
    } else if config_mode is Some {
        (decision_for(config_mode->0), override_mode)
    } else {
        match choice {
            None => (OperationDecision::Prompt, override_mode),
            Some(c) => (decision_for(c.mode), if c.apply_to_all {
                Some(c.mode)
            } else {
                override_mode
            }),
        }
    }
}

/// What is done about a file operation.
#[derive(Debug, Clone, Copy, PartialEq, Eq, Structural)]
pub enum OperationAction {
    /// Ask the user how to resolve the conflict.
    Prompt,
    /// Cancel everything.
    Abort,
    /// Leave the existing target alone and report the skip.
    Skip,
    /// Dry run: report what would be done and change nothing.
    Preview,
    /// Link or copy, then report it.
    Apply,
    /// Delete the existing target, then link or copy and report it.
    RemoveThenApply,
    /// Rename the existing target to `*.bak`, then link or copy and report it.
    BackupThenApply,
}

/// The action for a decision: a dry run previews what a performed,
/// overwritten or backed-up operation would do and touches nothing.
pub open spec fn action_of(d: OperationDecision, dry_run: bool) -> OperationAction {
    match d {
        OperationDecision::Prompt => OperationAction::Prompt,
        OperationDecision::Abort => OperationAction::Abort,
        OperationDecision::Skip => OperationAction::Skip,
        OperationDecision::Overwrite => if dry_run {
            OperationAction::Preview
        } else {
            OperationAction::RemoveThenApply
        },
        OperationDecision::Backup => if dry_run {
            OperationAction::Preview
        } else {
            OperationAction::BackupThenApply
        },
        OperationDecision::Perform => if dry_run {
            OperationAction::Preview
        } else {
            OperationAction::Apply
        },
    }
}

/// Whether an action changes the file system.
pub open spec fn changes_files(a: OperationAction) -> bool {
    a is Apply || a is RemoveThenApply || a is BackupThenApply
}

fn action_exec(d: OperationDecision, dry_run: bool) -> (r: OperationAction)
    ensures
        r == action_of(d, dry_run),
{
    match d {
        OperationDecision::Prompt => OperationAction::Prompt,
        OperationDecision::Abort => OperationAction::Abort,
        OperationDecision::Skip => OperationAction::Skip,
        OperationDecision::Overwrite => if dry_run {
            OperationAction::Preview
        } else {
            OperationAction::RemoveThenApply
        },
        OperationDecision::Backup => if dry_run {
            OperationAction::Preview
        } else {
            OperationAction::BackupThenApply
        },
        OperationDecision::Perform => if dry_run {
            OperationAction::Preview
        } else {
            OperationAction::Apply
        },
    }
}

fn decide_operation(
    conflict: bool,
    override_mode: &mut Option<OnConflict>,
    config_mode: Option<OnConflict>,
    choice: Option<ConflictChoice>,
) -> (r: OperationDecision)
    ensures
        (r, *final(override_mode)) == operation_decision(conflict, *old(override_mode), config_mode, choice),
{
    if !conflict {
        return OperationDecision::Perform;
    }
    if let Some(mode) = *override_mode {
        return decision_exec(mode);
    }
    if let Some(mode) = config_mode {
        return decision_exec(mode);
    }
    match choice {
        None => OperationDecision::Prompt,
        Some(c) => {
            if c.apply_to_all {
                *override_mode = Some(c.mode);
            }
            decision_exec(c.mode)
        },
    }
}

/// Decide what to do about a file operation; `override_mode` is the mode
/// kept for later conflicts.  A dry run never deletes, renames, links or
/// copies: it previews, skips, aborts or asks.
pub fn process_operation(
    conflict: bool,
    override_mode: &mut Option<OnConflict>,
    config_mode: Option<OnConflict>,
    choice: Option<ConflictChoice>,
    dry_run: bool,
) -> (r: OperationAction)
    ensures
        r == action_of(operation_decision(conflict, *old(override_mode), config_mode, choice).0, dry_run),
        *final(override_mode) == operation_decision(conflict, *old(override_mode), config_mode, choice).1,
        dry_run ==> (r is Preview || r is Skip || r is Abort || r is Prompt),
        dry_run ==> !changes_files(r),
        !conflict ==> *final(override_mode) == *old(override_mode),
        !conflict && dry_run ==> r is Preview,
        !conflict && !dry_run ==> r is Apply,
{
    let d = decide_operation(conflict, override_mode, config_mode, choice);
    action_exec(d, dry_run)
}

/// An answer given for all conflicts decides every later conflict the
/// same way, whatever mode the later entries configure, without asking.
pub proof fn law_apply_to_all_is_kept(
    c: ConflictChoice,
    later_config: Option<OnConflict>,
    later_choice: Option<ConflictChoice>,
)
    requires
        c.apply_to_all,
    ensures
        ({
            let (d1, kept) = operation_decision(true, None, None, Some(c));
            let (d2, kept2) = operation_decision(true, kept, later_config, later_choice);
            &&& d1 == decision_for(c.mode)
            &&& d2 == d1
            &&& kept2 == kept
            &&& d2 != OperationDecision::Prompt
        }),
{
}

/// The kind of a file operation.
#[derive(Debug, Clone, Copy, PartialEq, Eq, Structural)]
pub enum FileOp {
    Link,
    Copy,
}

/// The dry-run message of a file operation.
pub fn dry_run_operation_message(op: FileOp, source: &str, target: &str) -> (r: String)
    ensures
        r@ == "Would "@ + (match op {
            FileOp::Link => "link"@,
            FileOp::Copy => "copy"@,
        }) + ": "@ + source@ + " -> "@ + target@,
{
    let mut out = to_chars("Would ");
    match op {
        FileOp::Link => push_str(&mut out, "link"),
        FileOp::Copy => push_str(&mut out, "copy"),
    }
    push_str(&mut out, ": ");
    push_str(&mut out, source);
    push_str(&mut out, " -> ");
    push_str(&mut out, target);
    from_chars(&out)
}

// ---------------------------------------------------------------------------
// Before the worktree is created
// ---------------------------------------------------------------------------

/// Hooks that are defined and not trusted stop `add`, unless setup is
/// skipped.
pub fn check_hooks_trusted(has_hooks: bool, no_setup: bool, trusted: bool) -> (r: Result<(), Error>)
    ensures
        (has_hooks && !no_setup && !trusted) ==> (r matches Err(Error::HooksNotTrusted)),
        !(has_hooks && !no_setup && !trusted) ==> r is Ok,
{
    if has_hooks && !no_setup && !trusted {
        Err(Error::HooksNotTrusted)
    } else {
        Ok(())
    }
}

/// The first option that is set among three.
pub open spec fn first_set(a: Option<String>, b: Option<String>, c: Option<String>) -> Option<String> {
    match a {
        Some(x) => Some(x),
        None => match b {
            Some(y) => Some(y),
            None => c,
        },
    }
}

/// The branch a generated worktree path is named after: the commit-ish,
/// else the new branch, else the force-created branch.
pub fn path_branch(args: &AddArgs) -> (r: Result<String, Error>)
    ensures
        match first_set(args.commitish, args.new_branch, args.new_branch_force) {
            Some(b) => r matches Ok(s) && s@ == b@,
            None => r matches Err(Error::PathRequired),
        },
{
    match &args.commitish {
        Some(b) => Ok(b.clone()),
        None => match &args.new_branch {
            Some(b) => Ok(b.clone()),
            None => match &args.new_branch_force {
                Some(b) => Ok(b.clone()),
                None => Err(Error::PathRequired),
            },
        },
    }
}

/// A branch name without a leading `refs/heads/`.
pub open spec fn strip_heads(b: Seq<char>) -> Seq<char> {
    if starts_with(b, "refs/heads/"@) {
        b.skip("refs/heads/"@.len() as int)
    } else {
        b
    }
}

/// The branch the hooks see: the new branch, else the commit-ish, else the
/// force-created branch, without a leading `refs/heads/`.
pub fn hook_branch(args: &AddArgs) -> (r: Option<String>)
    ensures
        match first_set(args.new_branch, args.commitish, args.new_branch_force) {
            Some(b) => r matches Some(s) && s@ == strip_heads(b@),
            None => r is None,
        },
{
    proof {
        reveal_strlit("refs/heads/");
    }
    let chosen = match &args.new_branch {
        Some(b) => Some(b),
        None => match &args.commitish {
            Some(b) => Some(b),
            None => match &args.new_branch_force {
                Some(b) => Some(b),
                None => None,
            },
        },
    };
    match chosen {
        Some(b) => {
            let cs = to_chars(b.as_str());
            if starts_with_str(&cs, "refs/heads/") {
                let rest = slice_chars(&cs, 11, cs.len());
                proof {
                    assert(rest@ =~= b@.skip(11));
                }
                Some(from_chars(&rest))
            } else {
                Some(b.clone())
            }
        },
        None => None,
    }
}

/// Whether link `i` has no glob pattern and its source does not exist.
pub open spec fn link_source_missing(config: Config, link_exists: Seq<bool>, i: int) -> bool {
    !has_glob_pattern(config.link@[i].source@) && !link_exists[i]
}

/// The first source that does not exist, checked before anything is
/// created: link sources without a glob pattern, then copy sources.
/// `link_exists[i]` and `copy_exists[i]` say whether each source exists.
pub fn check_sources_exist(config: &Config, link_exists: &Vec<bool>, copy_exists: &Vec<bool>) -> (r: Result<(), Error>)
    requires
        link_exists@.len() == config.link@.len(),
        copy_exists@.len() == config.copy@.len(),
    ensures
        r is Ok <==> ((forall|i: int|
            0 <= i < config.link@.len() ==> !link_source_missing(*config, link_exists@, i))
            && (forall|i: int| 0 <= i < config.copy@.len() ==> #[trigger] copy_exists@[i])),
        r matches Err(e) ==> (e matches Error::SourceNotFound { path } && ((exists|i: int|
            0 <= i < config.link@.len() && link_source_missing(*config, link_exists@, i)
                && path@ == #[trigger] config.link@[i].source@
                && forall|j: int| 0 <= j < i ==> !link_source_missing(*config, link_exists@, j))
            || ((forall|i: int|
            0 <= i < config.link@.len() ==> !link_source_missing(*config, link_exists@, i))
            && exists|k: int|
            0 <= k < config.copy@.len() && !copy_exists@[k] && path@ == #[trigger] config.copy@[k].source@
                && forall|j: int| 0 <= j < k ==> copy_exists@[j]))),
{
    let mut i: usize = 0;
    while i < config.link.len()
        invariant
            i <= config.link@.len(),
            link_exists@.len() == config.link@.len(),
            forall|j: int| 0 <= j < i ==> !link_source_missing(*config, link_exists@, j),
        decreases config.link.len() - i,
    {
        if !contains_glob_pattern(config.link[i].source.as_str()) && !link_exists[i] {
            let path = config.link[i].source.clone();
            proof {
                assert(link_source_missing(*config, link_exists@, i as int));
                assert(path@ == config.link@[i as int].source@);
            }
            return Err(Error::SourceNotFound { path });
        }
        i = i + 1;
    }
    let mut k: usize = 0;
    while k < config.copy.len()
        invariant
            k <= config.copy@.len(),
            copy_exists@.len() == config.copy@.len(),
            link_exists@.len() == config.link@.len(),
            forall|j: int| 0 <= j < config.link@.len() ==> !link_source_missing(*config, link_exists@, j),
            forall|j: int| 0 <= j < k ==> #[trigger] copy_exists@[j],
        decreases config.copy.len() - k,
    {
        if !copy_exists[k] {
            let path = config.copy[k].source.clone();
            proof {
                assert(!copy_exists@[k as int] && path@ == config.copy@[k as int].source@);
            }
            return Err(Error::SourceNotFound { path });
        }
        k = k + 1;
    }
    Ok(())
}

// ---------------------------------------------------------------------------
// Paths and branches chosen for the new worktree
// ---------------------------------------------------------------------------

/// A path taken relative to the current directory, as `Path::join` does: an
/// absolute path stays as it is.
pub fn resolve_against(cwd: &str, path: &str) -> (r: String)
    ensures
        r@ == join_path(cwd@, path@),
{
    join_paths(cwd, path)
}

/// The path suggested for a new worktree: the configured template, or a
/// sibling directory named after the branch.
pub fn suggested_worktree_path(worktree: &Worktree, branch: &str, repository: &str) -> (r: String)
    ensures
        match worktree.path_template {
            Some(t) => r@ == generated_path(t@, branch@, repository@),
            None => r@ == "../"@ + branch@,
        },
{
    match worktree.generate_path(branch, repository) {
        Some(p) => p,
        None => {
            let mut out = to_chars("../");
            push_str(&mut out, branch);
            from_chars(&out)
        },
    }
}

/// Record the branch chosen interactively: a new branch, from `base` when
/// one was given, or an existing one to check out.
pub fn apply_branch_choice(args: &mut AddArgs, branch: &str, create_new: bool, base: Option<String>)
    ensures
        create_new ==> (final(args).new_branch matches Some(b) && b@ == branch@),
        create_new && base is Some ==> final(args).commitish == base,
        create_new && base is None ==> final(args).commitish == old(args).commitish,
        !create_new ==> (final(args).commitish matches Some(c) && c@ == branch@),
        !create_new ==> final(args).new_branch == old(args).new_branch,
        final(args).path == old(args).path,
        final(args).new_branch_force == old(args).new_branch_force,
{
    if create_new {
        args.new_branch = Some(branch.to_owned());
        if let Some(b) = base {
            args.commitish = Some(b);
        }
    } else {
        args.commitish = Some(branch.to_owned());
    }
}

// ---------------------------------------------------------------------------
// Setup operations
// ---------------------------------------------------------------------------

/// A link or copy to perform.
pub struct PlannedOp {
    pub op: FileOp,
    pub source: String,
    pub target: String,
    pub config_mode: Option<OnConflict>,
    pub description: Option<String>,
}

/// The model of a planned operation.
pub struct OpModel {
    pub op: FileOp,
    pub source: Seq<char>,
    pub target: Seq<char>,
    pub config_mode: Option<OnConflict>,
    pub description: Option<String>,
}

pub open spec fn op_models(v: Seq<PlannedOp>) -> Seq<OpModel> {
    Seq::new(
        v.len(),
        |i: int|
            OpModel {
                op: v[i].op,
                source: v[i].source@,
                target: v[i].target@,
                config_mode: v[i].config_mode,
                description: v[i].description,
            },
    )
}

/// The entry's conflict mode, or the default one.
pub open spec fn mode_or(m: Option<OnConflict>, default: Option<OnConflict>) -> Option<OnConflict> {
    match m {
        Some(x) => Some(x),
        None => default,
    }
}

/// The operations of expanded link entries, in order: each source under the
/// repository root, each target under the worktree.
pub open spec fn link_ops(
    expanded: Seq<Seq<Link>>,
    repo_root: Seq<char>,
    worktree: Seq<char>,
    default: Option<OnConflict>,
) -> Seq<OpModel>
    decreases expanded.len(),
{
    if expanded.len() == 0 {
        seq![]
    } else {
        link_ops(expanded.drop_last(), repo_root, worktree, default) + expanded.last().map_values(
            |l: Link|
                OpModel {
                    op: FileOp::Link,
                    source: join_path(repo_root, l.source@),
                    target: join_path(worktree, l.target@),
                    config_mode: mode_or(l.on_conflict, default),
                    description: l.description,
                },
        )
    }
}

/// The operations of copy entries, in order.
pub open spec fn copy_ops(
    copies: Seq<crate::config::Copy>,
    repo_root: Seq<char>,
    worktree: Seq<char>,
    default: Option<OnConflict>,
) -> Seq<OpModel> {
    copies.map_values(
        |c: crate::config::Copy|
            OpModel {
                op: FileOp::Copy,
                source: join_path(repo_root, c.source@),
                target: join_path(worktree, c.target@),
                config_mode: mode_or(c.on_conflict, default),
                description: c.description,
            },
    )
}

fn push_op(
    out: &mut Vec<PlannedOp>,
    op: FileOp,
    repo_root: &str,
    worktree: &str,
    source: &String,
    target: &String,
    mode: Option<OnConflict>,
    default: Option<OnConflict>,
    description: &Option<String>,
)
    ensures
        op_models(final(out)@) == op_models(old(out)@).push(
            OpModel {
                op,
                source: join_path(repo_root@, source@),
                target: join_path(worktree@, target@),
                config_mode: mode_or(mode, default),
                description: *description,
            },
        ),
{
    let ghost before = op_models(out@);
    let config_mode = match mode {
        Some(m) => Some(m),
        None => default,
    };
    out.push(
        PlannedOp {
            op,
            source: join_paths(repo_root, source.as_str()),
            target: join_paths(worktree, target.as_str()),
            config_mode,
            description: clone_opt(description),
        },
    );
    proof {
        assert(op_models(out@) =~= before.push(
            OpModel {
                op,
                source: join_path(repo_root@, source@),
                target: join_path(worktree@, target@),
                config_mode: mode_or(mode, default),
                description: *description,
            },
        ));
    }
}

/// The links and copies of the setup, in order: the expansions of the link
/// entries (`expanded[i]` for entry `i`), then the copies; each with its
/// mode, or the default mode.
pub fn plan_file_ops(config: &Config, repo_root: &str, worktree_path: &str, expanded: &Vec<Vec<Link>>) -> (r:
    Vec<PlannedOp>)
    ensures
        op_models(r@) == link_ops(
            Seq::new(expanded@.len(), |i: int| expanded@[i]@),
            repo_root@,
            worktree_path@,
            config.defaults.on_conflict,
        ) + copy_ops(config.copy@, repo_root@, worktree_path@, config.defaults.on_conflict),
{
    let default = config.defaults.on_conflict;
    let ghost ev = Seq::new(expanded@.len(), |i: int| expanded@[i]@);
    let mut out: Vec<PlannedOp> = Vec::new();
    let mut i: usize = 0;
    while i < expanded.len()
        invariant
            i <= expanded.len(),
            default == config.defaults.on_conflict,
            ev == Seq::new(expanded@.len(), |i: int| expanded@[i]@),
            op_models(out@) == link_ops(ev.take(i as int), repo_root@, worktree_path@, default),
        decreases expanded.len() - i,
    {
        let group = &expanded[i];
        let ghost start = op_models(out@);
        let ghost mapped = group@.map_values(
            |l: Link|
                OpModel {
                    op: FileOp::Link,
                    source: join_path(repo_root@, l.source@),
                    target: join_path(worktree_path@, l.target@),
                    config_mode: mode_or(l.on_conflict, default),
                    description: l.description,
                },
        );
        let mut j: usize = 0;
        while j < group.len()
            invariant
                j <= group.len(),
                group == &expanded@[i as int],
                mapped == group@.map_values(
                    |l: Link|
                        OpModel {
                            op: FileOp::Link,
                            source: join_path(repo_root@, l.source@),
                            target: join_path(worktree_path@, l.target@),
                            config_mode: mode_or(l.on_conflict, default),
                            description: l.description,
                        },
                ),
                op_models(out@) == start + mapped.take(j as int),
            decreases group.len() - j,
        {
            let l = &group[j];
            push_op(
                &mut out,
                FileOp::Link,
                repo_root,
                worktree_path,
                &l.source,
                &l.target,
                l.on_conflict,
                default,
                &l.description,
            );
            proof {
                assert(mapped.take(j + 1) =~= mapped.take(j as int).push(mapped[j as int]));
            }
            j = j + 1;
        }
        proof {
            assert(mapped.take(group.len() as int) =~= mapped);
            assert(ev.take(i + 1).drop_last() =~= ev.take(i as int));
            assert(ev.take(i + 1).last() == group@);
        }
        i = i + 1;
    }
    proof {
        assert(ev.take(expanded.len() as int) =~= ev);
    }
    let ghost links_part = op_models(out@);
    let ghost cmapped = copy_ops(config.copy@, repo_root@, worktree_path@, default);
    let mut k: usize = 0;
    while k < config.copy.len()
        invariant
            k <= config.copy.len(),
            default == config.defaults.on_conflict,
            cmapped == copy_ops(config.copy@, repo_root@, worktree_path@, default),
            op_models(out@) == links_part + cmapped.take(k as int),
        decreases config.copy.len() - k,
    {
        let c = &config.copy[k];
        push_op(
            &mut out,
            FileOp::Copy,
            repo_root,
            worktree_path,
            &c.source,
            &c.target,
            c.on_conflict,
            default,
            &c.description,
        );
        proof {
            assert(cmapped.take(k + 1) =~= cmapped.take(k as int).push(cmapped[k as int]));
        }
        k = k + 1;
    }
    proof {
        assert(cmapped.take(config.copy.len() as int) =~= cmapped);
    }
    out
}

/// The directories to create: each mkdir path under the worktree, in order.
pub fn mkdir_targets(config: &Config, worktree_path: &str) -> (r: Vec<String>)
    ensures
        crate::text::string_views(r@) == config.mkdir@.map_values(
            |m: crate::config::Mkdir| join_path(worktree_path@, m.path@),
        ),
{
    let ghost want = config.mkdir@.map_values(|m: crate::config::Mkdir| join_path(worktree_path@, m.path@));
    let mut out: Vec<String> = Vec::new();
    let mut i: usize = 0;
    while i < config.mkdir.len()
        invariant
            i <= config.mkdir.len(),
            want == config.mkdir@.map_values(|m: crate::config::Mkdir| join_path(worktree_path@, m.path@)),
            crate::text::string_views(out@) == want.take(i as int),
        decreases config.mkdir.len() - i,
    {
        let ghost before = crate::text::string_views(out@);
        out.push(join_paths(worktree_path, config.mkdir[i].path.as_str()));
        proof {
            assert(crate::text::string_views(out@) =~= before.push(want[i as int]));
            assert(want.take(i + 1) =~= want.take(i as int).push(want[i as int]));
        }
        i = i + 1;
    }
    proof {
        assert(want.take(config.mkdir.len() as int) =~= want);
    }
    out
}

/// The dry-run message for a directory.
pub fn dry_run_mkdir_message(target: &str) -> (r: String)
    ensures
        r@ == "Would create directory: "@ + target@,
{
    let mut out = to_chars("Would create directory: ");
    push_str(&mut out, target);
    from_chars(&out)
}

/// The dry-run message for creating the worktree.
pub fn dry_run_add_message(worktree_path: &str) -> (r: String)
    ensures
        r@ == "Would run: git worktree add "@ + worktree_path@,
{
    let mut out = to_chars("Would run: git worktree add ");
    push_str(&mut out, worktree_path);
    from_chars(&out)
}


// ---------------------------------------------------------------------------
// The order of the steps of `gwtx add`
// ---------------------------------------------------------------------------

/// What `gwtx add` found before it changes anything: the flags, whether
/// hooks are configured and trusted, the first missing source (as
/// `check_sources_exist` names it), and which add hooks exist.
#[derive(Debug, Clone)]
pub struct AddInputs {
    pub dry_run: bool,
    pub no_setup: bool,
    pub has_hooks: bool,
    pub trusted: bool,
    pub missing_source: Option<String>,
    pub has_pre_add: bool,
    pub has_post_add: bool,
}

/// Where `gwtx add` stands.
#[derive(Debug, Clone, Copy, PartialEq, Eq, Structural)]
pub enum AddPhase {
    /// Nothing done yet.
    Start,
    /// The worktree's path is being chosen (asked for, or made from the
    /// arguments and the template).
    Resolving,
    /// The pre_add hooks are running (or being previewed).
    PreAdd,
    /// The worktree is being created (or previewed).
    Creating,
    /// The worktree was created without setup (`--no-setup`).
    CreatingBare,
    /// mkdir, link and copy are being done (or previewed).
    Setup,
    /// The post_add hooks are running (or being previewed).
    PostAdd,
    /// A failed setup made the new worktree be removed again.
    RolledBack,
    /// Finished successfully.
    Done,
    /// Finished with an error.
    Failed,
}

/// What happened to the last action.
#[derive(Debug, Clone, Copy, PartialEq, Eq, Structural)]
pub enum AddEvent {
    /// The command starts.
    Begin,
    /// The last action succeeded.
    StepOk,
    /// The last action failed.
    StepFailed,
}

/// Which hooks of `gwtx add`.
#[derive(Debug, Clone, Copy, PartialEq, Eq, Structural)]
pub enum AddHook {
    PreAdd,
    PostAdd,
}

/// What `gwtx add` does next.
#[derive(Debug, Clone)]
pub enum AddAction {
    /// Stop with this error, before anything was changed.
    Fail(Error),
    /// Stop with the error of the action that failed (for a rollback, the
    /// setup's error).
    FailWithStepError,
    /// Choose the worktree's path.
    ResolvePath,
    /// Run hooks.
    RunHook(AddHook),
    /// Print the dry-run lines of hooks.
    PreviewHooks(AddHook),
    /// Run `git worktree add`.
    GitWorktreeAdd,
    /// Print what `git worktree add` would do.
    PreviewWorktreeAdd,
    /// Create the directories, links and copies.
    ChangeFile,
    /// Print what the setup would create (its operations only preview).
    PreviewSetup,
    /// Remove the new worktree, forced, because its setup failed.
    RemoveWorktreeForce,
    /// Warn that post_add hooks failed; the worktree stays.
    WarnPostAddFailed,
    /// Report success.
    ReportSuccess,
    /// Stop successfully with nothing more to do.
    Finish,
}

/// The hooks step, or a preview of it on a dry run.
pub open spec fn hook_action(inputs: AddInputs, h: AddHook) -> AddAction {
    if inputs.dry_run {
        AddAction::PreviewHooks(h)
    } else {
        AddAction::RunHook(h)
    }
}

/// Creating the worktree, or a preview of it on a dry run.
pub open spec fn create_action(inputs: AddInputs) -> AddAction {
    if inputs.dry_run {
        AddAction::PreviewWorktreeAdd
    } else {
        AddAction::GitWorktreeAdd
    }
}

/// The step after the worktree was set up: post_add hooks, or the end.
pub open spec fn after_setup(inputs: AddInputs) -> (AddPhase, AddAction) {
    if inputs.has_post_add {
        (AddPhase::PostAdd, hook_action(inputs, AddHook::PostAdd))
    } else if inputs.dry_run {
        (AddPhase::Done, AddAction::Finish)
    } else {
        (AddPhase::Done, AddAction::ReportSuccess)
    }
}

/// The order of `gwtx add`.  At the start: untrusted hooks refuse the
/// command (unless setup is skipped); then the path is chosen;
/// `--no-setup` only creates the
/// worktree; a missing source refuses it; then pre_add hooks, the worktree,
/// the setup and the post_add hooks follow each other.  A failed step stops
/// the command, except that a failed setup first removes the new worktree
/// and failed post_add hooks only warn.  A dry run previews each step and
/// changes nothing.
pub open spec fn add_transition(inputs: AddInputs, phase: AddPhase, event: AddEvent) -> (AddPhase, AddAction) {
    match phase {
        AddPhase::Start => if inputs.has_hooks && !inputs.no_setup && !inputs.trusted {
            (AddPhase::Failed, AddAction::Fail(Error::HooksNotTrusted))
        } else {
            (AddPhase::Resolving, AddAction::ResolvePath)
        },
        AddPhase::Resolving => if event == AddEvent::StepFailed {
            (AddPhase::Failed, AddAction::FailWithStepError)
        } else if inputs.no_setup {
            (AddPhase::CreatingBare, create_action(inputs))
        } else if inputs.missing_source is Some {
            (AddPhase::Failed, AddAction::Fail(Error::SourceNotFound { path: inputs.missing_source->0 }))
        } else if inputs.has_pre_add {
            (AddPhase::PreAdd, hook_action(inputs, AddHook::PreAdd))
        } else {
            (AddPhase::Creating, create_action(inputs))
        },
        AddPhase::PreAdd => if event == AddEvent::StepFailed {
            (AddPhase::Failed, AddAction::FailWithStepError)
        } else {
            (AddPhase::Creating, create_action(inputs))
        },
        AddPhase::Creating => if event == AddEvent::StepFailed {
            (AddPhase::Failed, AddAction::FailWithStepError)
        } else if inputs.dry_run {
            (AddPhase::Setup, AddAction::PreviewSetup)
        } else {
            (AddPhase::Setup, AddAction::ChangeFile)
        },
        AddPhase::CreatingBare => if event == AddEvent::StepFailed {
            (AddPhase::Failed, AddAction::FailWithStepError)
        } else {
            (AddPhase::Done, AddAction::Finish)
        },
        AddPhase::Setup => if event == AddEvent::StepFailed {
            if inputs.dry_run {
                (AddPhase::Failed, AddAction::FailWithStepError)
            } else {
                (AddPhase::RolledBack, AddAction::RemoveWorktreeForce)
            }
        } else {
            after_setup(inputs)
        },
        AddPhase::PostAdd => if event == AddEvent::StepFailed {
            (AddPhase::Done, AddAction::WarnPostAddFailed)
        } else if inputs.dry_run {
            (AddPhase::Done, AddAction::Finish)
        } else {
            (AddPhase::Done, AddAction::ReportSuccess)
        },
        AddPhase::RolledBack => (AddPhase::Failed, AddAction::FailWithStepError),
        AddPhase::Done => (AddPhase::Done, AddAction::Finish),
        AddPhase::Failed => (AddPhase::Failed, AddAction::FailWithStepError),
    }
}

/// Whether an action changes the repository, the file system or runs a
/// command.
pub open spec fn add_action_changes(a: AddAction) -> bool {
    a is GitWorktreeAdd || a is RemoveWorktreeForce || a is RunHook || a is ChangeFile
}

fn hook_action_exec(inputs: &AddInputs, h: AddHook) -> (r: AddAction)
    ensures
        r == hook_action(*inputs, h),
{
    if inputs.dry_run {
        AddAction::PreviewHooks(h)
    } else {
        AddAction::RunHook(h)
    }
}

fn create_action_exec(inputs: &AddInputs) -> (r: AddAction)
    ensures
        r == create_action(*inputs),
{
    if inputs.dry_run {
        AddAction::PreviewWorktreeAdd
    } else {
        AddAction::GitWorktreeAdd
    }
}

/// The next phase of `gwtx add` and what to do, from the phase it is in and
/// what happened to the last action.
pub fn add_step(inputs: &AddInputs, phase: AddPhase, event: AddEvent) -> (r: (AddPhase, AddAction))
    ensures
        r == add_transition(*inputs, phase, event),
        phase == AddPhase::Start && inputs.has_hooks && !inputs.no_setup && !inputs.trusted ==> (r.1 matches AddAction::Fail(
            Error::HooksNotTrusted,
        )),
        phase == AddPhase::Resolving && event == AddEvent::StepOk && !inputs.no_setup
            && inputs.missing_source is Some ==> r.1 is Fail,
        inputs.dry_run ==> !add_action_changes(r.1),
        !inputs.dry_run && phase == AddPhase::Setup && event == AddEvent::StepFailed ==> (r.1 is RemoveWorktreeForce
            && r.0 == AddPhase::RolledBack),
{
    match phase {
        AddPhase::Start => {
            if inputs.has_hooks && !inputs.no_setup && !inputs.trusted {
                (AddPhase::Failed, AddAction::Fail(Error::HooksNotTrusted))
            } else {
                (AddPhase::Resolving, AddAction::ResolvePath)
            }
        },
        AddPhase::Resolving => {
            if event == AddEvent::StepFailed {
                (AddPhase::Failed, AddAction::FailWithStepError)
            } else if inputs.no_setup {
                (AddPhase::CreatingBare, create_action_exec(inputs))
            } else if let Some(path) = &inputs.missing_source {
                (AddPhase::Failed, AddAction::Fail(Error::SourceNotFound { path: path.clone() }))
            } else if inputs.has_pre_add {
                (AddPhase::PreAdd, hook_action_exec(inputs, AddHook::PreAdd))
            } else {
                (AddPhase::Creating, create_action_exec(inputs))
            }
        },
        AddPhase::PreAdd => {
            if event == AddEvent::StepFailed {
                (AddPhase::Failed, AddAction::FailWithStepError)
            } else {
                (AddPhase::Creating, create_action_exec(inputs))
            }
        },
        AddPhase::Creating => {
            if event == AddEvent::StepFailed {
                (AddPhase::Failed, AddAction::FailWithStepError)
            } else if inputs.dry_run {
                (AddPhase::Setup, AddAction::PreviewSetup)
            } else {
                (AddPhase::Setup, AddAction::ChangeFile)
            }
        },
        AddPhase::CreatingBare => {
            if event == AddEvent::StepFailed {
                (AddPhase::Failed, AddAction::FailWithStepError)
            } else {
                (AddPhase::Done, AddAction::Finish)
            }
        },
        AddPhase::Setup => {
            if event == AddEvent::StepFailed {
                if inputs.dry_run {
                    (AddPhase::Failed, AddAction::FailWithStepError)
                } else {
                    (AddPhase::RolledBack, AddAction::RemoveWorktreeForce)
                }
            } else if inputs.has_post_add {
                (AddPhase::PostAdd, hook_action_exec(inputs, AddHook::PostAdd))
            } else if inputs.dry_run {
                (AddPhase::Done, AddAction::Finish)
            } else {
                (AddPhase::Done, AddAction::ReportSuccess)
            }
        },
        AddPhase::PostAdd => {
            if event == AddEvent::StepFailed {
                (AddPhase::Done, AddAction::WarnPostAddFailed)
            } else if inputs.dry_run {
                (AddPhase::Done, AddAction::Finish)
            } else {
                (AddPhase::Done, AddAction::ReportSuccess)
            }
        },
        AddPhase::RolledBack => (AddPhase::Failed, AddAction::FailWithStepError),
        AddPhase::Done => (AddPhase::Done, AddAction::Finish),
        AddPhase::Failed => (AddPhase::Failed, AddAction::FailWithStepError),
    }
}


/// The actions of `gwtx add` run from `phase` as `events` come, one action
/// per event.
pub open spec fn add_actions(inputs: AddInputs, phase: AddPhase, events: Seq<AddEvent>) -> Seq<AddAction>
    decreases events.len(),
{
    if events.len() == 0 {
        seq![]
    } else {
        let (next, action) = add_transition(inputs, phase, events[0]);
        seq![action] + add_actions(inputs, next, events.drop_first())
    }
}

proof fn lemma_failed_changes_nothing(inputs: AddInputs, events: Seq<AddEvent>)
    ensures
        forall|k: int|
            0 <= k < add_actions(inputs, AddPhase::Failed, events).len() ==> !add_action_changes(
                #[trigger] add_actions(inputs, AddPhase::Failed, events)[k],
            ),
    decreases events.len(),
{
    if events.len() > 0 {
        lemma_failed_changes_nothing(inputs, events.drop_first());
        let rest = add_actions(inputs, AddPhase::Failed, events.drop_first());
        let all = add_actions(inputs, AddPhase::Failed, events);
        assert forall|k: int| 0 <= k < all.len() implies !add_action_changes(#[trigger] all[k]) by {
            if k > 0 {
                assert(all[k] == rest[k - 1]);
            }
        }
    }
}

/// Untrusted hooks (when setup is not skipped) stop `gwtx add` before
/// anything is done, and so does a missing source once the path is known:
/// whatever happens next, no worktree is created, no hook runs and no file
/// is touched.
pub proof fn law_refused_add_changes_nothing(inputs: AddInputs, events: Seq<AddEvent>)
    requires
        !inputs.no_setup,
        (inputs.has_hooks && !inputs.trusted) || inputs.missing_source is Some,
    ensures
        forall|k: int|
            0 <= k < add_actions(inputs, AddPhase::Start, events).len() ==> !add_action_changes(
                #[trigger] add_actions(inputs, AddPhase::Start, events)[k],
            ),
{
    let all = add_actions(inputs, AddPhase::Start, events);
    if events.len() > 0 {
        let (p1, a1) = add_transition(inputs, AddPhase::Start, events[0]);
        let rest1 = add_actions(inputs, p1, events.drop_first());
        if p1 == AddPhase::Failed {
            lemma_failed_changes_nothing(inputs, events.drop_first());
        } else {
            assert(p1 == AddPhase::Resolving);
            let ev = events.drop_first();
            if ev.len() > 0 {
                let (p2, a2) = add_transition(inputs, AddPhase::Resolving, ev[0]);
                assert(p2 == AddPhase::Failed);
                lemma_failed_changes_nothing(inputs, ev.drop_first());
                let rest2 = add_actions(inputs, AddPhase::Failed, ev.drop_first());
                assert forall|k: int| 0 <= k < rest1.len() implies !add_action_changes(#[trigger] rest1[k]) by {
                    if k > 0 {
                        assert(rest1[k] == rest2[k - 1]);
                    }
                }
            }
        }
        assert forall|k: int| 0 <= k < all.len() implies !add_action_changes(#[trigger] all[k]) by {
            if k > 0 {
                assert(all[k] == rest1[k - 1]);
            }
        }
    }
}

/// A dry run of `gwtx add`, whatever happens, creates no worktree, runs no
/// hook, touches no file and removes nothing: every action is a preview, a
/// report or the end.
pub proof fn law_dry_run_add_changes_nothing(inputs: AddInputs, phase: AddPhase, events: Seq<AddEvent>)
    requires
        inputs.dry_run,
    ensures
        forall|k: int|
            0 <= k < add_actions(inputs, phase, events).len() ==> !add_action_changes(
                #[trigger] add_actions(inputs, phase, events)[k],
            ),
    decreases events.len(),
{
    if events.len() > 0 {
        let (next, action) = add_transition(inputs, phase, events[0]);
        law_dry_run_add_changes_nothing(inputs, next, events.drop_first());
        let rest = add_actions(inputs, next, events.drop_first());
        let all = add_actions(inputs, phase, events);
        assert forall|k: int| 0 <= k < all.len() implies !add_action_changes(#[trigger] all[k]) by {
            if k > 0 {
                assert(all[k] == rest[k - 1]);
            }
        }
    }
}

} // verus!
