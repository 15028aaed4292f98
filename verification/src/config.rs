//! Configuration model: the permissive raw form read from `.gwtx.yaml`,
//! its validation into `Config`, and the worktree path and branch templates.

use vstd::prelude::*;
use crate::error::Error;
use crate::clock::{TimeFields, format_time, has_no_percent, local_now, strftime_ok, strftime_text};
use crate::paths::{components, components_of, components_eq, path_error, validate_path};
use crate::template::{
    Piece, TemplatePiece, has_double_brace, lemma_pieces_plain, piece_views, pieces, tokenize,
};
use crate::text::{
    buffer_views, chars_eq, chars_eq_str, decimal, ends_with, from_chars, join, join_chars,
    push_all, push_decimal, push_str, slice_chars, starts_with, starts_with_str, to_chars, trim,
    trim_chars,
};

verus! {

/// Config file name.
pub const CONFIG_FILE_NAME: &'static str = ".gwtx.yaml";

/// Conflict resolution mode.
#[derive(Debug, Clone, Copy, PartialEq, Eq, Structural)]
pub enum OnConflict {
    Abort,
    Skip,
    Overwrite,
    Backup,
}

/// Hook entry with command and optional description.
#[derive(Debug, Clone, PartialEq, Default)]
pub struct HookEntry {
    pub command: String,
    pub description: Option<String>,
}

// Raw types for permissive parsing. Missing fields get default values
// instead of parse errors, allowing validation to collect all errors at once.

/// Global defaults for all operations.
#[derive(Debug, Default)]
pub struct RawDefaults {
    pub on_conflict: Option<OnConflict>,
}

/// Worktree path and branch templates.
#[derive(Debug, Default)]
pub struct RawWorktree {
    pub path_template: Option<String>,
    pub branch_template: Option<String>,
}

/// Hooks that run before/after worktree operations.
#[derive(Debug, Default)]
pub struct RawHooks {
    pub pre_add: Vec<HookEntry>,
    pub post_add: Vec<HookEntry>,
    pub pre_remove: Vec<HookEntry>,
    pub post_remove: Vec<HookEntry>,
}

/// Directory creation operation; an empty path stands for a missing one.
#[derive(Debug, Default)]
pub struct RawMkdir {
    pub path: String,
    pub description: Option<String>,
}

/// Symlink creation operation; an empty source stands for a missing one.
#[derive(Debug, Default)]
pub struct RawLink {
    pub source: String,
    pub target: Option<String>,
    pub on_conflict: Option<OnConflict>,
    pub description: Option<String>,
    pub ignore_tracked: bool,
}

/// File/directory copy operation; an empty source stands for a missing one.
#[derive(Debug, Default)]
pub struct RawCopy {
    pub source: String,
    pub target: Option<String>,
    pub on_conflict: Option<OnConflict>,
    pub description: Option<String>,
}

/// The configuration as read, before validation.
#[derive(Debug, Default)]
pub struct RawConfig {
    pub defaults: RawDefaults,
    pub worktree: RawWorktree,
    pub hooks: RawHooks,
    pub mkdir: Vec<RawMkdir>,
    pub link: Vec<RawLink>,
    pub copy: Vec<RawCopy>,
}

// Validated types used by the application. Guaranteed valid after conversion.

/// Global options.
#[derive(Debug, Default)]
pub struct Defaults {
    pub on_conflict: Option<OnConflict>,
}

/// Worktree path generation configuration.
#[derive(Debug, Clone, Default)]
pub struct Worktree {
    pub path_template: Option<String>,
    pub branch_template: Option<String>,
}

/// Hook commands configuration.
#[derive(Debug, Default, Clone)]
pub struct Hooks {
    pub pre_add: Vec<HookEntry>,
    pub post_add: Vec<HookEntry>,
    pub pre_remove: Vec<HookEntry>,
    pub post_remove: Vec<HookEntry>,
}

/// Directory creation configuration entry.
#[derive(Debug)]
pub struct Mkdir {
    pub path: String,
    pub description: Option<String>,
}

/// Symlink configuration entry.
#[derive(Debug, Clone)]
pub struct Link {
    pub source: String,
    /// Always resolved: the source when no target was given.
    pub target: String,
    pub on_conflict: Option<OnConflict>,
    pub description: Option<String>,
    pub ignore_tracked: bool,
}

/// File copy configuration entry.
#[derive(Debug)]
pub struct Copy {
    pub source: String,
    /// Always resolved: the source when no target was given.
    pub target: String,
    pub on_conflict: Option<OnConflict>,
    pub description: Option<String>,
}

/// Root configuration from .gwtx.yaml.
#[derive(Debug, Default)]
pub struct Config {
    pub defaults: Defaults,
    pub worktree: Worktree,
    pub hooks: Hooks,
    pub mkdir: Vec<Mkdir>,
    pub link: Vec<Link>,
    pub copy: Vec<Copy>,
}

// ---------------------------------------------------------------------------
// Validation model
// ---------------------------------------------------------------------------

/// The label of entry `i` of a list: `kind[i]`.
pub open spec fn entry_label(kind: Seq<char>, i: int) -> Seq<char> {
    kind + "["@ + decimal(i as nat) + "]"@
}

/// One line of the validation report.
pub open spec fn report_line(s: Seq<char>) -> Seq<char> {
    "  - "@ + s
}

/// The state of validation: the error lines so far, and the components of
/// the target paths claimed so far.
#[verifier::ext_equal]
pub struct Validation {
    pub errors: Seq<Seq<char>>,
    pub targets: Seq<Seq<Seq<char>>>,
}

/// The validation state before any entry.
pub open spec fn validation_start() -> Validation {
    Validation { errors: seq![], targets: seq![] }
}

/// Record a path error of `field` of entry `label`, if the path has one.
pub open spec fn check_path(v: Validation, label: Seq<char>, field: Seq<char>, p: Seq<char>) -> Validation {
    match path_error(p) {
        Some(err) => Validation {
            errors: v.errors.push(report_line(label + "."@ + field + ": "@ + err)),
            ..v
        },
        None => v,
    }
}

/// Claim target `p` for entry `label`, or record that it is a duplicate.
pub open spec fn claim_target(v: Validation, label: Seq<char>, p: Seq<char>) -> Validation {
    if v.targets.contains(components(p)) {
        Validation {
            errors: v.errors.push(report_line(label + ": duplicate target path: "@ + p)),
            ..v
        }
    } else {
        Validation { targets: v.targets.push(components(p)), ..v }
    }
}

/// Validation of mkdir entry `i`.
pub open spec fn mkdir_step(v: Validation, i: int, m: RawMkdir) -> Validation {
    let label = entry_label("mkdir"@, i);
    if m.path@.len() == 0 {
        Validation { errors: v.errors.push(report_line(label + ": path is required"@)), ..v }
    } else {
        claim_target(check_path(v, label, "path"@, m.path@), label, m.path@)
    }
}

/// The target of a link entry: its target, or its source when none is given.
pub open spec fn link_target(l: RawLink) -> Seq<char> {
    match l.target {
        Some(t) => t@,
        None => l.source@,
    }
}

/// The target of a copy entry: its target, or its source when none is given.
pub open spec fn copy_target(c: RawCopy) -> Seq<char> {
    match c.target {
        Some(t) => t@,
        None => c.source@,
    }
}

/// Validation of a source/target entry `i` of list `kind`.
pub open spec fn file_op_step(v: Validation, kind: Seq<char>, i: int, source: Seq<char>, target: Seq<char>) -> Validation {
    let label = entry_label(kind, i);
    if source.len() == 0 {
        Validation { errors: v.errors.push(report_line(label + ": source is required"@)), ..v }
    } else {
        claim_target(
            check_path(check_path(v, label, "source"@, source), label, "target"@, target),
            label,
            target,
        )
    }
}

/// Validation after the mkdir entries `ms`.
pub open spec fn validate_mkdirs(v: Validation, ms: Seq<RawMkdir>) -> Validation
    decreases ms.len(),
{
    if ms.len() == 0 {
        v
    } else {
        mkdir_step(validate_mkdirs(v, ms.drop_last()), ms.len() - 1, ms.last())
    }
}

/// Validation after the link entries `ls`.
pub open spec fn validate_links(v: Validation, ls: Seq<RawLink>) -> Validation
    decreases ls.len(),
{
    if ls.len() == 0 {
        v
    } else {
        file_op_step(
            validate_links(v, ls.drop_last()),
            "link"@,
            ls.len() - 1,
            ls.last().source@,
            link_target(ls.last()),
        )
    }
}

/// Validation after the copy entries `cs`.
pub open spec fn validate_copies(v: Validation, cs: Seq<RawCopy>) -> Validation
    decreases cs.len(),
{
    if cs.len() == 0 {
        v
    } else {
        file_op_step(
            validate_copies(v, cs.drop_last()),
            "copy"@,
            cs.len() - 1,
            cs.last().source@,
            copy_target(cs.last()),
        )
    }
}

/// The error lines of a raw configuration, in the order they are found:
/// mkdir entries, then link entries, then copy entries.
pub open spec fn config_errors(raw: RawConfig) -> Seq<Seq<char>> {
    validate_copies(
        validate_links(validate_mkdirs(validation_start(), raw.mkdir@), raw.link@),
        raw.copy@,
    ).errors
}

/// Whether a mkdir entry is valid on its own: a path, relative, without `..`.
pub open spec fn mkdir_ok(m: RawMkdir) -> bool {
    m.path@.len() > 0 && path_error(m.path@) is None
}

/// Whether a source/target entry is valid on its own: a source, and both
/// paths relative, without `..`.
pub open spec fn file_op_ok(source: Seq<char>, target: Seq<char>) -> bool {
    source.len() > 0 && path_error(source) is None && path_error(target) is None
}

/// The paths of mkdir entries.
pub open spec fn mkdir_paths(ms: Seq<RawMkdir>) -> Seq<Seq<char>> {
    Seq::new(ms.len(), |i: int| ms[i].path@)
}

/// The targets of link entries.
pub open spec fn link_targets(ls: Seq<RawLink>) -> Seq<Seq<char>> {
    Seq::new(ls.len(), |i: int| link_target(ls[i]))
}

/// The targets of copy entries.
pub open spec fn copy_targets(cs: Seq<RawCopy>) -> Seq<Seq<char>> {
    Seq::new(cs.len(), |i: int| copy_target(cs[i]))
}

/// The components of each path.
pub open spec fn path_components(ps: Seq<Seq<char>>) -> Seq<Seq<Seq<char>>> {
    Seq::new(ps.len(), |i: int| components(ps[i]))
}

/// The target paths a configuration claims, in the order they are checked.
pub open spec fn claimed_targets(raw: RawConfig) -> Seq<Seq<char>> {
    mkdir_paths(raw.mkdir@) + link_targets(raw.link@) + copy_targets(raw.copy@)
}

/// Whether no two paths name the same path component by component.
pub open spec fn distinct_paths(ts: Seq<Seq<char>>) -> bool {
    forall|i: int, j: int|
        0 <= i < j < ts.len() ==> components(#[trigger] ts[i]) != components(#[trigger] ts[j])
}

proof fn lemma_mkdirs_clean(v: Validation, ms: Seq<RawMkdir>)
    requires
        v.errors.len() == 0,
        forall|i: int| 0 <= i < ms.len() ==> mkdir_ok(#[trigger] ms[i]),
        distinct_paths(mkdir_paths(ms)),
        forall|i: int| 0 <= i < ms.len() ==> !v.targets.contains(components(#[trigger] ms[i].path@)),
    ensures
        validate_mkdirs(v, ms).errors.len() == 0,
        validate_mkdirs(v, ms).targets == v.targets + path_components(mkdir_paths(ms)),
    decreases ms.len(),
{
    if ms.len() > 0 {
        let init = ms.drop_last();
        assert forall|i: int, j: int| 0 <= i < j < init.len() implies components(
            #[trigger] mkdir_paths(init)[i],
        ) != components(#[trigger] mkdir_paths(init)[j]) by {
            assert(mkdir_paths(ms)[i] == mkdir_paths(init)[i]);
            assert(mkdir_paths(ms)[j] == mkdir_paths(init)[j]);
        }
        assert forall|i: int| 0 <= i < init.len() implies mkdir_ok(#[trigger] init[i]) by {
            assert(init[i] == ms[i]);
        }
        assert forall|i: int| 0 <= i < init.len() implies !v.targets.contains(
            components(#[trigger] init[i].path@),
        ) by {
            assert(init[i] == ms[i]);
        }
        lemma_mkdirs_clean(v, init);
        let w = validate_mkdirs(v, init);
        let last = ms.last();
        let c = components(last.path@);
        assert(mkdir_ok(ms[ms.len() - 1]));
        let prior = path_components(mkdir_paths(init));
        assert(!w.targets.contains(c)) by {
            if w.targets.contains(c) {
                let k = choose|k: int| 0 <= k < w.targets.len() && w.targets[k] == c;
                if k < v.targets.len() {
                    assert(v.targets[k] == c);
                    assert(v.targets.contains(components(ms[ms.len() - 1].path@)));
                } else {
                    let j = k - v.targets.len();
                    assert(prior[j] == c);
                    assert(mkdir_paths(ms)[j] == ms[j].path@);
                    assert(mkdir_paths(ms)[ms.len() - 1] == last.path@);
                }
            }
        }
        assert(v.targets + path_components(mkdir_paths(ms)) =~= (v.targets + prior).push(c));
    }
}

proof fn lemma_links_clean(v: Validation, ls: Seq<RawLink>)
    requires
        v.errors.len() == 0,
        forall|i: int| 0 <= i < ls.len() ==> file_op_ok(#[trigger] ls[i].source@, link_target(ls[i])),
        distinct_paths(link_targets(ls)),
        forall|i: int| 0 <= i < ls.len() ==> !v.targets.contains(components(link_target(#[trigger] ls[i]))),
    ensures
        validate_links(v, ls).errors.len() == 0,
        validate_links(v, ls).targets == v.targets + path_components(link_targets(ls)),
    decreases ls.len(),
{
    if ls.len() > 0 {
        let init = ls.drop_last();
        assert forall|i: int, j: int| 0 <= i < j < init.len() implies components(
            #[trigger] link_targets(init)[i],
        ) != components(#[trigger] link_targets(init)[j]) by {
            assert(link_targets(ls)[i] == link_targets(init)[i]);
            assert(link_targets(ls)[j] == link_targets(init)[j]);
        }
        assert forall|i: int| 0 <= i < init.len() implies file_op_ok(
            #[trigger] init[i].source@,
            link_target(init[i]),
        ) by {
            assert(init[i] == ls[i]);
        }
        assert forall|i: int| 0 <= i < init.len() implies !v.targets.contains(
            components(link_target(#[trigger] init[i])),
        ) by {
            assert(init[i] == ls[i]);
        }
        lemma_links_clean(v, init);
        let w = validate_links(v, init);
        let last = ls.last();
        let c = components(link_target(last));
        assert(file_op_ok(ls[ls.len() - 1].source@, link_target(ls[ls.len() - 1])));
        let prior = path_components(link_targets(init));
        assert(!w.targets.contains(c)) by {
            if w.targets.contains(c) {
                let k = choose|k: int| 0 <= k < w.targets.len() && w.targets[k] == c;
                if k < v.targets.len() {
                    assert(v.targets[k] == c);
                    assert(v.targets.contains(components(link_target(ls[ls.len() - 1]))));
                } else {
                    let j = k - v.targets.len();
                    assert(prior[j] == c);
                    assert(link_targets(ls)[j] == link_target(ls[j]));
                    assert(link_targets(ls)[ls.len() - 1] == link_target(last));
                }
            }
        }
        assert(v.targets + path_components(link_targets(ls)) =~= (v.targets
            + prior).push(c));
    }
}

proof fn lemma_copies_clean(v: Validation, cs: Seq<RawCopy>)
    requires
        v.errors.len() == 0,
        forall|i: int| 0 <= i < cs.len() ==> file_op_ok(#[trigger] cs[i].source@, copy_target(cs[i])),
        distinct_paths(copy_targets(cs)),
        forall|i: int| 0 <= i < cs.len() ==> !v.targets.contains(components(copy_target(#[trigger] cs[i]))),
    ensures
        validate_copies(v, cs).errors.len() == 0,
    decreases cs.len(),
{
    if cs.len() > 0 {
        let init = cs.drop_last();
        assert forall|i: int, j: int| 0 <= i < j < init.len() implies components(
            #[trigger] copy_targets(init)[i],
        ) != components(#[trigger] copy_targets(init)[j]) by {
            assert(copy_targets(cs)[i] == copy_targets(init)[i]);
            assert(copy_targets(cs)[j] == copy_targets(init)[j]);
        }
        assert forall|i: int| 0 <= i < init.len() implies file_op_ok(
            #[trigger] init[i].source@,
            copy_target(init[i]),
        ) by {
            assert(init[i] == cs[i]);
        }
        assert forall|i: int| 0 <= i < init.len() implies !v.targets.contains(
            components(copy_target(#[trigger] init[i])),
        ) by {
            assert(init[i] == cs[i]);
        }
        lemma_copies_clean(v, init);
        lemma_copies_targets(v, init);
        let w = validate_copies(v, init);
        let last = cs.last();
        let c = components(copy_target(last));
        assert(file_op_ok(cs[cs.len() - 1].source@, copy_target(cs[cs.len() - 1])));
        let prior = path_components(copy_targets(init));
        assert(!w.targets.contains(c)) by {
            if w.targets.contains(c) {
                let k = choose|k: int| 0 <= k < w.targets.len() && w.targets[k] == c;
                if k < v.targets.len() {
                    assert(v.targets[k] == c);
                    assert(v.targets.contains(components(copy_target(cs[cs.len() - 1]))));
                } else {
                    let j = k - v.targets.len();
                    assert(prior[j] == c);
                    assert(copy_targets(cs)[j] == copy_target(cs[j]));
                    assert(copy_targets(cs)[cs.len() - 1] == copy_target(last));
                }
            }
        }
    }
}

proof fn lemma_copies_targets(v: Validation, cs: Seq<RawCopy>)
    requires
        v.errors.len() == 0,
        forall|i: int| 0 <= i < cs.len() ==> file_op_ok(#[trigger] cs[i].source@, copy_target(cs[i])),
        distinct_paths(copy_targets(cs)),
        forall|i: int| 0 <= i < cs.len() ==> !v.targets.contains(components(copy_target(#[trigger] cs[i]))),
    ensures
        validate_copies(v, cs).targets == v.targets + path_components(copy_targets(cs)),
    decreases cs.len(),
{
    if cs.len() > 0 {
        let init = cs.drop_last();
        assert forall|i: int, j: int| 0 <= i < j < init.len() implies components(
            #[trigger] copy_targets(init)[i],
        ) != components(#[trigger] copy_targets(init)[j]) by {
            assert(copy_targets(cs)[i] == copy_targets(init)[i]);
            assert(copy_targets(cs)[j] == copy_targets(init)[j]);
        }
        assert forall|i: int| 0 <= i < init.len() implies file_op_ok(
            #[trigger] init[i].source@,
            copy_target(init[i]),
        ) by {
            assert(init[i] == cs[i]);
        }
        assert forall|i: int| 0 <= i < init.len() implies !v.targets.contains(
            components(copy_target(#[trigger] init[i])),
        ) by {
            assert(init[i] == cs[i]);
        }
        lemma_copies_clean(v, init);
        lemma_copies_targets(v, init);
        let w = validate_copies(v, init);
        let last = cs.last();
        let c = components(copy_target(last));
        assert(file_op_ok(cs[cs.len() - 1].source@, copy_target(cs[cs.len() - 1])));
        let prior = path_components(copy_targets(init));
        assert(!w.targets.contains(c)) by {
            if w.targets.contains(c) {
                let k = choose|k: int| 0 <= k < w.targets.len() && w.targets[k] == c;
                if k < v.targets.len() {
                    assert(v.targets[k] == c);
                    assert(v.targets.contains(components(copy_target(cs[cs.len() - 1]))));
                } else {
                    let j = k - v.targets.len();
                    assert(prior[j] == c);
                    assert(copy_targets(cs)[j] == copy_target(cs[j]));
                    assert(copy_targets(cs)[cs.len() - 1] == copy_target(last));
                }
            }
        }
        assert(v.targets + path_components(copy_targets(cs)) =~= (v.targets
            + prior).push(c));
    }
}

/// Whether no element occurs twice.
pub open spec fn no_duplicates<T>(s: Seq<T>) -> bool {
    forall|i: int, j: int| 0 <= i < j < s.len() ==> s[i] != s[j]
}

proof fn lemma_claim_keeps_distinct(v: Validation, label: Seq<char>, p: Seq<char>)
    requires
        no_duplicates(v.targets),
    ensures
        no_duplicates(claim_target(v, label, p).targets),
{
    let w = claim_target(v, label, p);
    if !v.targets.contains(components(p)) {
        assert forall|i: int, j: int| 0 <= i < j < w.targets.len() implies w.targets[i] != w.targets[j] by {
            if j == v.targets.len() {
                assert(w.targets[j] == components(p));
                assert(w.targets[i] == v.targets[i]);
            } else {
                assert(w.targets[i] == v.targets[i]);
                assert(w.targets[j] == v.targets[j]);
            }
        }
    }
}

proof fn lemma_file_op_keeps_distinct(v: Validation, kind: Seq<char>, i: int, source: Seq<char>, target: Seq<char>)
    requires
        no_duplicates(v.targets),
    ensures
        no_duplicates(file_op_step(v, kind, i, source, target).targets),
{
    let label = entry_label(kind, i);
    let c = check_path(check_path(v, label, "source"@, source), label, "target"@, target);
    assert(c.targets == v.targets);
    lemma_claim_keeps_distinct(c, label, target);
}

proof fn lemma_mkdirs_distinct(v: Validation, ms: Seq<RawMkdir>)
    requires
        no_duplicates(v.targets),
    ensures
        no_duplicates(validate_mkdirs(v, ms).targets),
    decreases ms.len(),
{
    if ms.len() > 0 {
        lemma_mkdirs_distinct(v, ms.drop_last());
        let w = validate_mkdirs(v, ms.drop_last());
        let label = entry_label("mkdir"@, ms.len() - 1);
        let m = ms.last();
        if m.path@.len() > 0 {
            let c = check_path(w, label, "path"@, m.path@);
            assert(c.targets == w.targets);
            lemma_claim_keeps_distinct(c, label, m.path@);
        }
    }
}

proof fn lemma_links_distinct(v: Validation, ls: Seq<RawLink>)
    requires
        no_duplicates(v.targets),
    ensures
        no_duplicates(validate_links(v, ls).targets),
    decreases ls.len(),
{
    if ls.len() > 0 {
        lemma_links_distinct(v, ls.drop_last());
        lemma_file_op_keeps_distinct(
            validate_links(v, ls.drop_last()),
            "link"@,
            ls.len() - 1,
            ls.last().source@,
            link_target(ls.last()),
        );
    }
}

proof fn lemma_copies_distinct(v: Validation, cs: Seq<RawCopy>)
    requires
        no_duplicates(v.targets),
    ensures
        no_duplicates(validate_copies(v, cs).targets),
    decreases cs.len(),
{
    if cs.len() > 0 {
        lemma_copies_distinct(v, cs.drop_last());
        lemma_file_op_keeps_distinct(
            validate_copies(v, cs.drop_last()),
            "copy"@,
            cs.len() - 1,
            cs.last().source@,
            copy_target(cs.last()),
        );
    }
}

/// The claimed targets that validation keeps, component lists of paths,
/// never hold one path twice: it is a set, in the order of its claims.
pub proof fn law_claimed_targets_form_a_set(raw: RawConfig)
    ensures
        no_duplicates(
            validate_copies(
                validate_links(validate_mkdirs(validation_start(), raw.mkdir@), raw.link@),
                raw.copy@,
            ).targets,
        ),
{
    lemma_mkdirs_distinct(validation_start(), raw.mkdir@);
    lemma_links_distinct(validate_mkdirs(validation_start(), raw.mkdir@), raw.link@);
    lemma_copies_distinct(validate_links(validate_mkdirs(validation_start(), raw.mkdir@), raw.link@), raw.copy@);
}

/// A configuration is accepted when every entry is valid on its own (a
/// path, relative, without `..`; a link or copy with a source) and no two
/// entries, over mkdir, link and copy together, claim the same target path.
pub proof fn law_valid_config_accepted(raw: RawConfig)
    requires
        forall|i: int| 0 <= i < raw.mkdir@.len() ==> mkdir_ok(#[trigger] raw.mkdir@[i]),
        forall|i: int|
            0 <= i < raw.link@.len() ==> file_op_ok(
                #[trigger] raw.link@[i].source@,
                link_target(raw.link@[i]),
            ),
        forall|i: int|
            0 <= i < raw.copy@.len() ==> file_op_ok(
                #[trigger] raw.copy@[i].source@,
                copy_target(raw.copy@[i]),
            ),
        distinct_paths(claimed_targets(raw)),
    ensures
        config_errors(raw).len() == 0,
{
    let ms = raw.mkdir@;
    let ls = raw.link@;
    let cs = raw.copy@;
    let mp = mkdir_paths(ms);
    let lt = link_targets(ls);
    let ct = copy_targets(cs);
    let t = claimed_targets(raw);
    let nm = mp.len() as int;
    let nl = lt.len() as int;
    assert forall|k: int| 0 <= k < nm implies #[trigger] t[k] == mp[k] by {}
    assert forall|k: int| 0 <= k < nl implies #[trigger] t[nm + k] == lt[k] by {}
    assert forall|k: int| 0 <= k < ct.len() implies #[trigger] t[nm + nl + k] == ct[k] by {}

    let v0 = validation_start();
    assert forall|i: int, j: int| 0 <= i < j < mp.len() implies components(#[trigger] mp[i])
        != components(#[trigger] mp[j]) by {
        assert(t[i] == mp[i]);
        assert(t[j] == mp[j]);
    }
    lemma_mkdirs_clean(v0, ms);
    let v1 = validate_mkdirs(v0, ms);
    let pm = path_components(mp);
    assert(v1.targets =~= pm);

    assert forall|i: int, j: int| 0 <= i < j < lt.len() implies components(#[trigger] lt[i])
        != components(#[trigger] lt[j]) by {
        assert(t[nm + i] == lt[i]);
        assert(t[nm + j] == lt[j]);
    }
    assert forall|i: int| 0 <= i < ls.len() implies !v1.targets.contains(
        components(link_target(#[trigger] ls[i])),
    ) by {
        assert(lt[i] == link_target(ls[i]));
        if v1.targets.contains(components(lt[i])) {
            let k = choose|k: int| 0 <= k < v1.targets.len() && v1.targets[k] == components(lt[i]);
            assert(pm[k] == components(mp[k]));
            assert(t[k] == mp[k]);
            assert(t[nm + i] == lt[i]);
        }
    }
    lemma_links_clean(v1, ls);
    let v2 = validate_links(v1, ls);
    let pl = path_components(lt);
    assert(v2.targets =~= pm + pl);

    assert forall|i: int, j: int| 0 <= i < j < ct.len() implies components(#[trigger] ct[i])
        != components(#[trigger] ct[j]) by {
        assert(t[nm + nl + i] == ct[i]);
        assert(t[nm + nl + j] == ct[j]);
    }
    assert forall|i: int| 0 <= i < cs.len() implies !v2.targets.contains(
        components(copy_target(#[trigger] cs[i])),
    ) by {
        assert(ct[i] == copy_target(cs[i]));
        if v2.targets.contains(components(ct[i])) {
            let k = choose|k: int| 0 <= k < v2.targets.len() && v2.targets[k] == components(ct[i]);
            assert(t[nm + nl + i] == ct[i]);
            if k < nm {
                assert(pm[k] == components(mp[k]));
                assert(t[k] == mp[k]);
            } else {
                assert(pl[k - nm] == components(lt[k - nm]));
                assert(t[nm + (k - nm)] == lt[k - nm]);
            }
        }
    }
    lemma_copies_clean(v2, cs);
}

// ---------------------------------------------------------------------------
// Validation, executable
// ---------------------------------------------------------------------------

/// The views of the component lists of claimed targets.
pub open spec fn target_views(t: Seq<Vec<Vec<char>>>) -> Seq<Seq<Seq<char>>> {
    Seq::new(t.len(), |i: int| buffer_views(t[i]@))
}

/// Exec state of validation.
struct Validator {
    errors: Vec<Vec<char>>,
    targets: Vec<Vec<Vec<char>>>,
}

impl Validator {
    spec fn model(&self) -> Validation {
        Validation { errors: buffer_views(self.errors@), targets: target_views(self.targets@) }
    }

    fn push_error(&mut self, line: Vec<char>)
        ensures
            final(self).model() == (Validation {
                errors: old(self).model().errors.push(line@),
                ..old(self).model()
            }),
            final(self).errors@.len() == old(self).errors@.len() + 1,
    {
        let ghost before = buffer_views(self.errors@);
        self.errors.push(line);
        proof {
            assert(buffer_views(self.errors@) =~= before.push(line@));
        }
    }

    fn check_path(&mut self, label: &Vec<char>, field: &str, p: &str)
        ensures
            final(self).model() == check_path(old(self).model(), label@, field@, p@),
            final(self).errors@.len() >= old(self).errors@.len(),
    {
        match validate_path(p) {
            Some(err) => {
                let mut line = to_chars("  - ");
                push_all(&mut line, label);
                push_str(&mut line, ".");
                push_str(&mut line, field);
                push_str(&mut line, ": ");
                push_str(&mut line, err.as_str());
                proof {
                    assert(line@ =~= report_line(label@ + "."@ + field@ + ": "@ + err@));
                }
                self.push_error(line);
            },
            None => {},
        }
    }

    fn claim_target(&mut self, label: &Vec<char>, p: &str)
        ensures
            final(self).model() == claim_target(old(self).model(), label@, p@),
            final(self).errors@.len() >= old(self).errors@.len(),
    {
        let pc = to_chars(p);
        let comps = components_of(&pc);
        let ghost tv = target_views(self.targets@);
        let mut i: usize = 0;
        while i < self.targets.len()
            invariant
                i <= self.targets.len(),
                tv == target_views(self.targets@),
                self.errors@ == old(self).errors@,
                self.targets@ == old(self).targets@,
                buffer_views(comps@) == components(p@),
                forall|j: int| 0 <= j < i ==> tv[j] != components(p@),
            decreases self.targets.len() - i,
        {
            if components_eq(&self.targets[i], &comps) {
                proof {
                    assert(tv[i as int] == components(p@));
                    assert(tv.contains(components(p@)));
                }
                let mut line = to_chars("  - ");
                push_all(&mut line, label);
                push_str(&mut line, ": duplicate target path: ");
                push_str(&mut line, p);
                proof {
                    assert(line@ =~= report_line(label@ + ": duplicate target path: "@ + p@));
                }
                self.push_error(line);
                return;
            }
            i = i + 1;
        }
        proof {
            assert(!tv.contains(components(p@))) by {
                if tv.contains(components(p@)) {
                    let k = choose|k: int| 0 <= k < tv.len() && tv[k] == components(p@);
                }
            }
        }
        self.targets.push(comps);
        proof {
            assert(target_views(self.targets@) =~= tv.push(components(p@)));
        }
    }
}

fn entry_label_exec(kind: &str, i: usize) -> (r: Vec<char>)
    ensures
        r@ == entry_label(kind@, i as int),
{
    let mut out = to_chars(kind);
    push_str(&mut out, "[");
    push_decimal(&mut out, i);
    push_str(&mut out, "]");
    out
}

fn clone_opt_string(o: &Option<String>) -> (r: Option<String>)
    ensures
        r == *o,
{
    match o {
        Some(s) => Some(s.clone()),
        None => None,
    }
}

fn file_op_step_exec(v: &mut Validator, kind: &str, i: usize, source: &String, target: &String)
    ensures
        final(v).model() == file_op_step(old(v).model(), kind@, i as int, source@, target@),
        final(v).errors@.len() >= old(v).errors@.len(),
        source@.len() == 0 ==> final(v).errors@.len() > old(v).errors@.len(),
{
    let label = entry_label_exec(kind, i);
    if source.as_str().is_empty() {
        let mut line = to_chars("  - ");
        push_all(&mut line, &label);
        push_str(&mut line, ": source is required");
        proof {
            assert(line@ =~= report_line(label@ + ": source is required"@));
        }
        v.push_error(line);
    } else {
        v.check_path(&label, "source", source.as_str());
        v.check_path(&label, "target", target.as_str());
        v.claim_target(&label, target.as_str());
    }
}

/// The mkdir entries `ms` keep, in order, the raw entries `raw`.
pub open spec fn mkdirs_kept(ms: Seq<Mkdir>, raw: Seq<RawMkdir>) -> bool {
    &&& ms.len() == raw.len()
    &&& forall|j: int|
        0 <= j < ms.len() ==> {
            &&& #[trigger] ms[j].path == raw[j].path
            &&& ms[j].description == raw[j].description
        }
}

/// The link entries `ls` keep, in order, the raw entries `raw`, each target
/// resolved.
pub open spec fn links_kept(ls: Seq<Link>, raw: Seq<RawLink>) -> bool {
    &&& ls.len() == raw.len()
    &&& forall|j: int|
        0 <= j < ls.len() ==> {
            &&& #[trigger] ls[j].source == raw[j].source
            &&& ls[j].target@ == link_target(raw[j])
            &&& ls[j].on_conflict == raw[j].on_conflict
            &&& ls[j].description == raw[j].description
            &&& ls[j].ignore_tracked == raw[j].ignore_tracked
        }
}

/// The copy entries `cs` keep, in order, the raw entries `raw`, each target
/// resolved.
pub open spec fn copies_kept(cs: Seq<Copy>, raw: Seq<RawCopy>) -> bool {
    &&& cs.len() == raw.len()
    &&& forall|j: int|
        0 <= j < cs.len() ==> {
            &&& #[trigger] cs[j].source == raw[j].source
            &&& cs[j].target@ == copy_target(raw[j])
            &&& cs[j].on_conflict == raw[j].on_conflict
            &&& cs[j].description == raw[j].description
        }
}

/// A validated configuration `c` holds everything of `raw`.
pub open spec fn config_keeps(c: Config, raw: RawConfig) -> bool {
    &&& c.defaults.on_conflict == raw.defaults.on_conflict
    &&& c.worktree.path_template == raw.worktree.path_template
    &&& c.worktree.branch_template == raw.worktree.branch_template
    &&& c.hooks.pre_add == raw.hooks.pre_add
    &&& c.hooks.post_add == raw.hooks.post_add
    &&& c.hooks.pre_remove == raw.hooks.pre_remove
    &&& c.hooks.post_remove == raw.hooks.post_remove
    &&& mkdirs_kept(c.mkdir@, raw.mkdir@)
    &&& links_kept(c.link@, raw.link@)
    &&& copies_kept(c.copy@, raw.copy@)
}

fn validate_mkdir_entries(v: &mut Validator, raw: &Vec<RawMkdir>) -> (out: Vec<Mkdir>)
    ensures
        final(v).model() == validate_mkdirs(old(v).model(), raw@),
        final(v).errors@.len() >= old(v).errors@.len(),
        final(v).errors@.len() == 0 ==> mkdirs_kept(out@, raw@),
{
    let ghost v0 = v.model();
    let mut out: Vec<Mkdir> = Vec::new();
    let mut i: usize = 0;
    while i < raw.len()
        invariant
            i <= raw.len(),
            v.model() == validate_mkdirs(v0, raw@.take(i as int)),
            v.errors@.len() >= old(v).errors@.len(),
            v.errors@.len() == 0 ==> mkdirs_kept(out@, raw@.take(i as int)),
        decreases raw.len() - i,
    {
        proof {
            assert(raw@.take(i + 1).drop_last() =~= raw@.take(i as int));
        }
        let m = &raw[i];
        let label = entry_label_exec("mkdir", i);
        if m.path.as_str().is_empty() {
            let mut line = to_chars("  - ");
            push_all(&mut line, &label);
            push_str(&mut line, ": path is required");
            proof {
                assert(line@ =~= report_line(label@ + ": path is required"@));
            }
            v.push_error(line);
        } else {
            v.check_path(&label, "path", m.path.as_str());
            v.claim_target(&label, m.path.as_str());
            let ghost out0 = out@;
            let entry = Mkdir { path: m.path.clone(), description: clone_opt_string(&m.description) };
            out.push(entry);
            proof {
                if v.errors@.len() == 0 {
                    assert(out@ == out0.push(out@[out0.len() as int]));
                    assert(mkdirs_kept(out@, raw@.take(i + 1)));
                }
            }
        }
        i = i + 1;
    }
    proof {
        assert(raw@.take(raw@.len() as int) =~= raw@);
    }
    out
}

fn validate_link_entries(v: &mut Validator, raw: &Vec<RawLink>) -> (out: Vec<Link>)
    ensures
        final(v).model() == validate_links(old(v).model(), raw@),
        final(v).errors@.len() >= old(v).errors@.len(),
        final(v).errors@.len() == 0 ==> links_kept(out@, raw@),
{
    let ghost v0 = v.model();
    let mut out: Vec<Link> = Vec::new();
    let mut i: usize = 0;
    while i < raw.len()
        invariant
            i <= raw.len(),
            v.model() == validate_links(v0, raw@.take(i as int)),
            v.errors@.len() >= old(v).errors@.len(),
            v.errors@.len() == 0 ==> links_kept(out@, raw@.take(i as int)),
        decreases raw.len() - i,
    {
        proof {
            assert(raw@.take(i + 1).drop_last() =~= raw@.take(i as int));
        }
        let l = &raw[i];
        let target = match &l.target {
            Some(t) => t.clone(),
            None => l.source.clone(),
        };
        proof {
            assert(target@ == link_target(raw@[i as int]));
        }
        let ghost out0 = out@;
        file_op_step_exec(v, "link", i, &l.source, &target);
        if !l.source.as_str().is_empty() {
            let entry = Link {
                source: l.source.clone(),
                target,
                on_conflict: l.on_conflict,
                description: clone_opt_string(&l.description),
                ignore_tracked: l.ignore_tracked,
            };
            out.push(entry);
            proof {
                if v.errors@.len() == 0 {
                    assert(out@ == out0.push(out@[out0.len() as int]));
                    assert(links_kept(out@, raw@.take(i + 1)));
                }
            }
        }
        i = i + 1;
    }
    proof {
        assert(raw@.take(raw@.len() as int) =~= raw@);
    }
    out
}

fn validate_copy_entries(v: &mut Validator, raw: &Vec<RawCopy>) -> (out: Vec<Copy>)
    ensures
        final(v).model() == validate_copies(old(v).model(), raw@),
        final(v).errors@.len() >= old(v).errors@.len(),
        final(v).errors@.len() == 0 ==> copies_kept(out@, raw@),
{
    let ghost v0 = v.model();
    let mut out: Vec<Copy> = Vec::new();
    let mut i: usize = 0;
    while i < raw.len()
        invariant
            i <= raw.len(),
            v.model() == validate_copies(v0, raw@.take(i as int)),
            v.errors@.len() >= old(v).errors@.len(),
            v.errors@.len() == 0 ==> copies_kept(out@, raw@.take(i as int)),
        decreases raw.len() - i,
    {
        proof {
            assert(raw@.take(i + 1).drop_last() =~= raw@.take(i as int));
        }
        let c = &raw[i];
        let target = match &c.target {
            Some(t) => t.clone(),
            None => c.source.clone(),
        };
        proof {
            assert(target@ == copy_target(raw@[i as int]));
        }
        let ghost out0 = out@;
        file_op_step_exec(v, "copy", i, &c.source, &target);
        if !c.source.as_str().is_empty() {
            let entry = Copy {
                source: c.source.clone(),
                target,
                on_conflict: c.on_conflict,
                description: clone_opt_string(&c.description),
            };
            out.push(entry);
            proof {
                if v.errors@.len() == 0 {
                    assert(out@ == out0.push(out@[out0.len() as int]));
                    assert(copies_kept(out@, raw@.take(i + 1)));
                }
            }
        }
        i = i + 1;
    }
    proof {
        assert(raw@.take(raw@.len() as int) =~= raw@);
    }
    out
}

impl Config {
    /// Validate and convert a raw configuration.
    ///
    /// Every problem is collected before failing: a missing path or source,
    /// an absolute path or one with a `..` component, and a target path
    /// claimed twice (compared by components).  The error lists them, one per
    /// line, in order.  On success every entry is kept, in order, with link
    /// and copy targets resolved to their sources where none was given.
    pub fn try_from(raw: RawConfig) -> (r: Result<Config, Error>)
        ensures
            match r {
                Ok(c) => config_errors(raw).len() == 0 && config_keeps(c, raw),
                Err(e) => {
                    &&& config_errors(raw).len() > 0
                    &&& e matches Error::ConfigValidation { message }
                    &&& message@ == join(config_errors(raw), "\n"@)
                },
            },
    {
        let mut v = Validator { errors: Vec::new(), targets: Vec::new() };
        proof {
            assert(v.model() =~= validation_start());
        }
        let mkdir = validate_mkdir_entries(&mut v, &raw.mkdir);
        let link = validate_link_entries(&mut v, &raw.link);
        let copy = validate_copy_entries(&mut v, &raw.copy);
        if v.errors.len() > 0 {
            let message = join_chars(&v.errors, "\n");
            return Err(Error::ConfigValidation { message: from_chars(&message) });
        }
        Ok(
            Config {
                defaults: Defaults { on_conflict: raw.defaults.on_conflict },
                worktree: Worktree {
                    path_template: raw.worktree.path_template,
                    branch_template: raw.worktree.branch_template,
                },
                hooks: Hooks {
                    pre_add: raw.hooks.pre_add,
                    post_add: raw.hooks.post_add,
                    pre_remove: raw.hooks.pre_remove,
                    post_remove: raw.hooks.post_remove,
                },
                mkdir,
                link,
                copy,
            },
        )
    }
}


// ---------------------------------------------------------------------------
// Worktree path templates
// ---------------------------------------------------------------------------

/// The value of variable `name` in a worktree path template: the branch, the
/// repository name, or, for any other name, the variable as it was written.
pub open spec fn path_var_value(name: Seq<char>, branch: Seq<char>, repository: Seq<char>) -> Seq<char> {
    let t = trim(name);
    if t == "branch"@ {
        branch
    } else if t == "repository"@ {
        repository
    } else {
        "{{"@ + name + "}}"@
    }
}

/// The text of one piece of a worktree path template.
pub open spec fn path_piece_text(p: Piece, branch: Seq<char>, repository: Seq<char>) -> Seq<char> {
    match p {
        Piece::Lit(c) => c,
        Piece::Var(name) => path_var_value(name, branch, repository),
        Piece::Open(rest) => "{{"@ + rest,
    }
}

/// The text of a sequence of worktree path template pieces.
pub open spec fn path_pieces_text(ps: Seq<Piece>, branch: Seq<char>, repository: Seq<char>) -> Seq<char>
    decreases ps.len(),
{
    if ps.len() == 0 {
        seq![]
    } else {
        path_pieces_text(ps.drop_last(), branch, repository) + path_piece_text(ps.last(), branch, repository)
    }
}

/// A worktree path template with `{{branch}}` and `{{repository}}` (spaces
/// allowed inside the braces) replaced; other variables, single braces and an
/// unclosed `{{` are kept as written.
pub open spec fn expanded_variables(template: Seq<char>, branch: Seq<char>, repository: Seq<char>) -> Seq<char> {
    path_pieces_text(pieces(template), branch, repository)
}

/// The path that a worktree path template generates: its expansion, or, when
/// the expansion changed nothing, the template with the branch appended.
pub open spec fn generated_path(template: Seq<char>, branch: Seq<char>, repository: Seq<char>) -> Seq<char> {
    let e = expanded_variables(template, branch, repository);
    if e == template {
        template + branch
    } else {
        e
    }
}

proof fn lemma_plain_text(s: Seq<char>, n: int, branch: Seq<char>, repository: Seq<char>)
    requires
        0 <= n <= s.len(),
    ensures
        path_pieces_text(Seq::new(s.len(), |i: int| Piece::Lit(seq![s[i]])).take(n), branch, repository)
            == s.take(n),
    decreases n,
{
    let ps = Seq::new(s.len(), |i: int| Piece::Lit(seq![s[i]]));
    if n > 0 {
        lemma_plain_text(s, n - 1, branch, repository);
        assert(ps.take(n).drop_last() =~= ps.take(n - 1));
        assert(s.take(n) =~= s.take(n - 1) + seq![s[n - 1]]);
    } else {
        assert(ps.take(0) =~= Seq::<Piece>::empty());
        assert(s.take(0) =~= Seq::<char>::empty());
    }
}

/// A template without `{{` is left unchanged by expansion.
pub proof fn lemma_expand_plain(template: Seq<char>, branch: Seq<char>, repository: Seq<char>)
    requires
        !has_double_brace(template),
    ensures
        expanded_variables(template, branch, repository) == template,
{
    lemma_pieces_plain(template);
    let ps = Seq::new(template.len(), |i: int| Piece::Lit(seq![template[i]]));
    lemma_plain_text(template, template.len() as int, branch, repository);
    assert(ps.take(template.len() as int) =~= ps);
    assert(template.take(template.len() as int) =~= template);
}

/// Law: a worktree path template that uses no `{{` variable generates the
/// template followed by the branch name.
pub proof fn law_plain_template_appends_branch(template: Seq<char>, branch: Seq<char>, repository: Seq<char>)
    requires
        !has_double_brace(template),
    ensures
        generated_path(template, branch, repository) == template + branch,
{
    lemma_expand_plain(template, branch, repository);
}

fn push_path_piece(out: &mut Vec<char>, p: &TemplatePiece, branch: &str, repository: &str)
    ensures
        final(out)@ == old(out)@ + path_piece_text(p.view(), branch@, repository@),
{
    match p {
        TemplatePiece::Lit(c) => {
            push_all(out, c);
        },
        TemplatePiece::Var(name) => {
            let t = trim_chars(name);
            if chars_eq_str(&t, "branch") {
                push_str(out, branch);
            } else if chars_eq_str(&t, "repository") {
                push_str(out, repository);
            } else {
                let ghost o = out@;
                push_str(out, "{{");
                push_all(out, name);
                push_str(out, "}}");
                proof {
                    assert(out@ =~= o + ("{{"@ + name@ + "}}"@));
                }
            }
        },
        TemplatePiece::Open(rest) => {
            let ghost o = out@;
            push_str(out, "{{");
            push_all(out, rest);
            proof {
                assert(out@ =~= o + ("{{"@ + rest@));
            }
        },
    }
}

/// Expand variables in a worktree path template.
/// Supports `{{var}}` syntax with optional whitespace:
/// `{{branch}}`, `{{ branch }}`, `{{  repository  }}`.
pub fn expand_variables(template: &str, branch: &str, repository: &str) -> (r: String)
    ensures
        r@ == expanded_variables(template@, branch@, repository@),
{
    let tc = to_chars(template);
    let ps = tokenize(&tc);
    let ghost pv = piece_views(ps@);
    let mut out: Vec<char> = Vec::new();
    let mut i: usize = 0;
    while i < ps.len()
        invariant
            i <= ps.len(),
            pv == piece_views(ps@),
            pv == pieces(template@),
            out@ == path_pieces_text(pv.take(i as int), branch@, repository@),
        decreases ps.len() - i,
    {
        proof {
            assert(pv.take(i + 1).drop_last() =~= pv.take(i as int));
            assert(pv.take(i + 1).last() == ps@[i as int].view());
        }
        push_path_piece(&mut out, &ps[i], branch, repository);
        i = i + 1;
    }
    proof {
        assert(pv.take(ps.len() as int) =~= pv);
    }
    from_chars(&out)
}

impl Worktree {
    /// Generate suggested worktree path based on configuration.
    /// Returns None if no worktree config is set.  When the template uses no
    /// variable, the branch is appended to it.
    pub fn generate_path(&self, branch: &str, repository: &str) -> (r: Option<String>)
        ensures
            r is None <==> self.path_template is None,
            r matches Some(p) ==> p@ == generated_path(
                self.path_template->0@,
                branch@,
                repository@,
            ),
    {
        match &self.path_template {
            None => None,
            Some(path_template) => {
                let expanded = expand_variables(path_template.as_str(), branch, repository);
                let ec = to_chars(expanded.as_str());
                let tc = to_chars(path_template.as_str());
                if chars_eq(&ec, &tc) {
                    let mut out = tc;
                    push_str(&mut out, branch);
                    Some(from_chars(&out))
                } else {
                    Some(expanded)
                }
            },
        }
    }
}


// ---------------------------------------------------------------------------
// Branch name templates
// ---------------------------------------------------------------------------

/// Template environment for branch name generation.
#[derive(Debug, Clone)]
pub struct BranchTemplateEnv {
    pub commitish: String,
    pub repository: String,
}

/// Whether a (trimmed) variable is a date format: `strftime(FORMAT)`.
pub open spec fn is_strftime(var: Seq<char>) -> bool {
    starts_with(var, "strftime("@) && ends_with(var, seq![')'])
}

/// The format of a `strftime(FORMAT)` variable.
pub open spec fn strftime_format(var: Seq<char>) -> Seq<char> {
    var.subrange("strftime("@.len() as int, var.len() - 1)
}

/// The value of a trimmed variable of a branch template; `time` is what
/// formatting the current time gave for a `strftime` variable, `None` when
/// formatting failed.  Unknown variables, and date formats that could not be
/// applied, are kept as `{var}`.
pub open spec fn branch_var_value(
    var: Seq<char>,
    commitish: Seq<char>,
    repository: Seq<char>,
    time: Option<Seq<char>>,
) -> Seq<char> {
    if var == "commitish"@ {
        commitish
    } else if var == "repository"@ {
        repository
    } else if is_strftime(var) && time is Some {
        time->0
    } else {
        "{"@ + var + "}"@
    }
}

/// Whether a piece is a `strftime` variable.
pub open spec fn is_time_piece(p: Piece) -> bool {
    p matches Piece::Var(name) && is_strftime(trim(name))
}

/// The number of `strftime` variables among the pieces.
pub open spec fn time_count(ps: Seq<Piece>) -> nat
    decreases ps.len(),
{
    if ps.len() == 0 {
        0
    } else {
        time_count(ps.drop_last()) + if is_time_piece(ps.last()) {
            1nat
        } else {
            0nat
        }
    }
}

/// The formats of the `strftime` variables among the pieces, in order.
pub open spec fn time_formats(ps: Seq<Piece>) -> Seq<Seq<char>>
    decreases ps.len(),
{
    if ps.len() == 0 {
        seq![]
    } else if is_time_piece(ps.last()) {
        time_formats(ps.drop_last()).push(strftime_format(trim(ps.last()->Var_0)))
    } else {
        time_formats(ps.drop_last())
    }
}

/// Element `k` of `times`, or `None` beyond its end.
pub open spec fn time_at(times: Seq<Option<Seq<char>>>, k: int) -> Option<Seq<char>> {
    if 0 <= k < times.len() {
        times[k]
    } else {
        None
    }
}

/// The text of one piece of a branch template.
pub open spec fn branch_piece_text(
    p: Piece,
    commitish: Seq<char>,
    repository: Seq<char>,
    time: Option<Seq<char>>,
) -> Seq<char> {
    match p {
        Piece::Lit(c) => c,
        Piece::Var(name) => branch_var_value(trim(name), commitish, repository, time),
        Piece::Open(rest) => "{{"@ + rest,
    }
}

/// The text of a sequence of branch template pieces; the `k`-th `strftime`
/// variable takes `times[k]`.
pub open spec fn branch_pieces_text(
    ps: Seq<Piece>,
    commitish: Seq<char>,
    repository: Seq<char>,
    times: Seq<Option<Seq<char>>>,
) -> Seq<char>
    decreases ps.len(),
{
    if ps.len() == 0 {
        seq![]
    } else {
        branch_pieces_text(ps.drop_last(), commitish, repository, times) + branch_piece_text(
            ps.last(),
            commitish,
            repository,
            time_at(times, time_count(ps.drop_last()) as int),
        )
    }
}

/// A branch template with `{{commitish}}`, `{{repository}}` and
/// `{{strftime(FORMAT)}}` expanded, given the outcomes of formatting the time.
pub open spec fn expanded_branch(
    template: Seq<char>,
    commitish: Seq<char>,
    repository: Seq<char>,
    times: Seq<Option<Seq<char>>>,
) -> Seq<char> {
    branch_pieces_text(pieces(template), commitish, repository, times)
}

/// The text held by an optional string.
pub open spec fn opt_view(o: Option<String>) -> Option<Seq<char>> {
    match o {
        Some(s) => Some(s@),
        None => None,
    }
}

/// The optional texts held by a sequence of optional strings.
pub open spec fn opt_views(v: Seq<Option<String>>) -> Seq<Option<Seq<char>>> {
    Seq::new(
        v.len(),
        |i: int|
            match v[i] {
                Some(s) => Some(s@),
                None => None,
            },
    )
}

proof fn lemma_time_count_bound(ps: Seq<Piece>)
    ensures
        time_count(ps) <= ps.len(),
    decreases ps.len(),
{
    if ps.len() > 0 {
        lemma_time_count_bound(ps.drop_last());
    }
}

proof fn lemma_branch_text_extend(
    ps: Seq<Piece>,
    c: Seq<char>,
    r: Seq<char>,
    times: Seq<Option<Seq<char>>>,
    more: Seq<Option<Seq<char>>>,
)
    requires
        times.len() >= time_count(ps),
    ensures
        branch_pieces_text(ps, c, r, times) == branch_pieces_text(ps, c, r, times + more),
    decreases ps.len(),
{
    if ps.len() > 0 {
        lemma_branch_text_extend(ps.drop_last(), c, r, times, more);
        let k = time_count(ps.drop_last()) as int;
        if is_time_piece(ps.last()) {
            assert(time_at(times, k) == time_at(times + more, k));
        } else if 0 <= k < times.len() {
            assert(time_at(times, k) == time_at(times + more, k));
        }
    }
}

/// What formatting a moment with `fmt` gives, whatever the moment: it
/// fails exactly when chrono cannot parse or write a specifier, and a
/// format without `%` is written as it stands.
pub open spec fn strftime_outcome_possible(fmt: Seq<char>, out: Option<Seq<char>>) -> bool {
    &&& (out is Some <==> strftime_ok(fmt))
    &&& has_no_percent(fmt) ==> out == Some(fmt)
}

/// The outcomes of formatting the time for each `strftime` variable, in
/// order, each a possible outcome of its format.
pub open spec fn times_fit_formats(times: Seq<Option<Seq<char>>>, formats: Seq<Seq<char>>) -> bool {
    &&& times.len() == formats.len()
    &&& forall|k: int| 0 <= k < times.len() ==> strftime_outcome_possible(formats[k], #[trigger] times[k])
}

/// The outcomes are chrono's text for the k-th format at the k-th moment
/// the clock gave.
pub open spec fn times_at_moments(
    times: Seq<Option<Seq<char>>>,
    moments: Seq<TimeFields>,
    formats: Seq<Seq<char>>,
) -> bool {
    &&& times.len() == formats.len()
    &&& moments.len() == formats.len()
    &&& forall|k: int| 0 <= k < times.len() ==> #[trigger] times[k] == strftime_text(moments[k], formats[k])
}

/// The value of a trimmed branch template variable, given the outcome of
/// formatting the current time for a `strftime` variable.
pub fn expand_branch_variable(var: &[char], env: &BranchTemplateEnv, time: Option<String>) -> (r: Vec<char>)
    ensures
        r@ == branch_var_value(
            var@,
            env.commitish@,
            env.repository@,
            opt_view(time),
        ),
{
    if chars_eq_str(var, "commitish") {
        return to_chars(env.commitish.as_str());
    }
    if chars_eq_str(var, "repository") {
        return to_chars(env.repository.as_str());
    }
    let close: Vec<char> = {
        let mut v: Vec<char> = Vec::new();
        v.push(')');
        v
    };
    proof {
        assert(close@ =~= seq![')']);
    }
    let is_time = starts_with_str(var, "strftime(") && crate::text::ends_with_chars(var, &close);
    if is_time {
        if let Some(t) = time {
            return to_chars(t.as_str());
        }
    }
    let mut out = to_chars("{");
    push_all(&mut out, var);
    push_str(&mut out, "}");
    out
}

/// Whether a template piece is a `strftime` variable; its format if it is.
fn time_format_of(p: &TemplatePiece) -> (r: Option<Vec<char>>)
    ensures
        r is Some <==> is_time_piece(p.view()),
        r matches Some(f) ==> f@ == strftime_format(trim(p.view()->Var_0)),
{
    match p {
        TemplatePiece::Var(name) => {
            let t = trim_chars(name);
            let mut close: Vec<char> = Vec::new();
            close.push(')');
            proof {
                assert(close@ =~= seq![')']);
            }
            if starts_with_str(&t, "strftime(") && crate::text::ends_with_chars(&t, &close) {
                proof {
                    reveal_strlit("strftime(");
                    assert("strftime("@.len() == 9);
                    if t@.len() <= 9 {
                        assert(t@.take(9) =~= t@);
                        assert(t@[8] == "strftime("@[8]);
                        assert("strftime("@[8] == '(');
                        assert(t@.skip(8)[0] == t@[8]);
                        assert(t@.skip(8) == seq![')']);
                        assert(false);
                    }
                }
                Some(slice_chars(&t, 9, t.len() - 1))
            } else {
                None
            }
        },
        _ => None,
    }
}

fn push_branch_piece(out: &mut Vec<char>, p: &TemplatePiece, env: &BranchTemplateEnv, time: Option<String>)
    ensures
        final(out)@ == old(out)@ + branch_piece_text(
            p.view(),
            env.commitish@,
            env.repository@,
            opt_view(time),
        ),
{
    match p {
        TemplatePiece::Lit(c) => {
            push_all(out, c);
        },
        TemplatePiece::Var(name) => {
            let t = trim_chars(name);
            let v = expand_branch_variable(&t, env, time);
            push_all(out, &v);
        },
        TemplatePiece::Open(rest) => {
            let ghost o = out@;
            push_str(out, "{{");
            push_all(out, rest);
            proof {
                assert(out@ =~= o + ("{{"@ + rest@));
            }
        },
    }
}

/// Expand a branch template, given the outcomes of formatting the time for
/// its `strftime` variables, in order.
pub fn expand_branch_template_with(template: &str, env: &BranchTemplateEnv, times: &Vec<Option<String>>) -> (r: String)
    ensures
        r@ == expanded_branch(template@, env.commitish@, env.repository@, opt_views(times@)),
{
    let tc = to_chars(template);
    let ps = tokenize(&tc);
    let ghost pv = piece_views(ps@);
    let ghost tv = opt_views(times@);
    let mut out: Vec<char> = Vec::new();
    let mut i: usize = 0;
    let mut k: usize = 0;
    while i < ps.len()
        invariant
            i <= ps.len(),
            pv == piece_views(ps@),
            pv == pieces(template@),
            tv == opt_views(times@),
            k == time_count(pv.take(i as int)),
            out@ == branch_pieces_text(pv.take(i as int), env.commitish@, env.repository@, tv),
        decreases ps.len() - i,
    {
        proof {
            assert(pv.take(i + 1).drop_last() =~= pv.take(i as int));
            assert(pv.take(i + 1).last() == ps@[i as int].view());
        }
        proof {
            lemma_time_count_bound(pv.take(i as int));
        }
        let fmt = time_format_of(&ps[i]);
        let time: Option<String> = if fmt.is_some() && k < times.len() {
            match &times[k] {
                Some(t) => Some(t.clone()),
                None => None,
            }
        } else {
            None
        };
        proof {
            let tm = opt_view(time);
            if is_time_piece(pv[i as int]) {
                assert(tm == time_at(tv, k as int));
            }
        }
        push_branch_piece(&mut out, &ps[i], env, time);
        if fmt.is_some() {
            k = k + 1;
        }
        i = i + 1;
    }
    proof {
        assert(pv.take(ps.len() as int) =~= pv);
    }
    from_chars(&out)
}

/// Expand variables in a branch template string.
/// Supports:
/// - `{{commitish}}`: The commit-ish (branch name, tag, commit hash, etc.)
/// - `{{repository}}`: Repository name
/// - `{{strftime(FORMAT)}}`: The current local date and time, formatted
///
/// The result is the expansion for the outcomes that formatting the time
/// gave, one for each `strftime` variable in order.
pub fn expand_branch_template(template: &str, env: &BranchTemplateEnv) -> (r: String)
    ensures
        exists|times: Seq<Option<Seq<char>>>, moments: Seq<TimeFields>|
            times.len() == time_count(pieces(template@)) && times_at_moments(
                times,
                moments,
                time_formats(pieces(template@)),
            ) && times_fit_formats(
                times,
                time_formats(pieces(template@)),
            ) && r@ == expanded_branch(
                template@,
                env.commitish@,
                env.repository@,
                times,
            ),
{
    let tc = to_chars(template);
    let ps = tokenize(&tc);
    let ghost pv = piece_views(ps@);
    let ghost mut times: Seq<Option<Seq<char>>> = seq![];
    let ghost mut moments: Seq<TimeFields> = seq![];
    let mut out: Vec<char> = Vec::new();
    let mut i: usize = 0;
    while i < ps.len()
        invariant
            i <= ps.len(),
            pv == piece_views(ps@),
            pv == pieces(template@),
            times.len() == time_count(pv.take(i as int)),
            times_fit_formats(times, time_formats(pv.take(i as int))),
            times_at_moments(times, moments, time_formats(pv.take(i as int))),
            out@ == branch_pieces_text(pv.take(i as int), env.commitish@, env.repository@, times),
        decreases ps.len() - i,
    {
        proof {
            assert(pv.take(i + 1).drop_last() =~= pv.take(i as int));
            assert(pv.take(i + 1).last() == ps@[i as int].view());
        }
        let fmt = time_format_of(&ps[i]);
        let ghost mut moment: TimeFields = arbitrary();
        let time: Option<String> = match &fmt {
            Some(f) => {
                let fs = from_chars(f);
                let now = local_now();
                proof {
                    moment = now.view();
                }
                format_time(&now, fs.as_str())
            },
            None => None,
        };
        let ghost tm = opt_view(time);
        let ghost old_times = times;
        let ghost old_moments = moments;
        proof {
            if fmt is Some {
                times = times.push(tm);
                moments = moments.push(moment);
            }
            lemma_branch_text_extend(
                pv.take(i as int),
                env.commitish@,
                env.repository@,
                old_times,
                times.skip(old_times.len() as int),
            );
            assert(old_times + times.skip(old_times.len() as int) =~= times);
            if fmt is Some {
                assert(time_at(times, old_times.len() as int) == tm);
                assert(time_formats(pv.take(i + 1)) == time_formats(pv.take(i as int)).push(
                    fmt->0@,
                ));
            } else {
                assert(time_formats(pv.take(i + 1)) == time_formats(pv.take(i as int)));
            }
            assert(times_fit_formats(times, time_formats(pv.take(i + 1))));
            if fmt is Some {
                assert(tm == strftime_text(moment, fmt->0@));
                assert forall|k: int| 0 <= k < times.len() implies #[trigger] times[k] == strftime_text(
                    moments[k],
                    time_formats(pv.take(i + 1))[k],
                ) by {
                    if k < old_times.len() {
                        assert(times[k] == old_times[k]);
                        assert(moments[k] == old_moments[k]);
                    }
                }
            }
            assert(times_at_moments(times, moments, time_formats(pv.take(i + 1))));
        }
        push_branch_piece(&mut out, &ps[i], env, time);
        i = i + 1;
    }
    proof {
        assert(pv.take(ps.len() as int) =~= pv);
    }
    from_chars(&out)
}

impl Worktree {
    /// Generate suggested branch name based on branch_template configuration.
    /// Returns None if no branch_template is configured.
    pub fn generate_branch_name(&self, env: &BranchTemplateEnv) -> (r: Option<String>)
        ensures
            r is None <==> self.branch_template is None,
            r matches Some(n) ==> exists|times: Seq<Option<Seq<char>>>, moments: Seq<TimeFields>|
                times.len() == time_count(pieces(self.branch_template->0@)) && times_at_moments(
                    times,
                    moments,
                    time_formats(pieces(self.branch_template->0@)),
                ) && times_fit_formats(
                    times,
                    time_formats(pieces(self.branch_template->0@)),
                ) && n@
                    == expanded_branch(
                    self.branch_template->0@,
                    env.commitish@,
                    env.repository@,
                    times,
                ),
    {
        match &self.branch_template {
            None => None,
            Some(template) => Some(expand_branch_template(template.as_str(), env)),
        }
    }
}

// ---------------------------------------------------------------------------
// Hooks
// ---------------------------------------------------------------------------

/// Whether any hook is defined.
pub open spec fn spec_has_hooks(h: Hooks) -> bool {
    h.pre_add@.len() > 0 || h.post_add@.len() > 0 || h.pre_remove@.len() > 0
        || h.post_remove@.len() > 0
}

impl Hooks {
    /// Check if any hooks are defined.
    pub fn has_hooks(&self) -> (r: bool)
        ensures
            r == spec_has_hooks(*self),
    {
        !self.pre_add.is_empty() || !self.post_add.is_empty() || !self.pre_remove.is_empty()
            || !self.post_remove.is_empty()
    }
}

} // verus!
