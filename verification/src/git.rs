//! What the library reads from git's output, and the arguments it gives git.

use vstd::prelude::*;
use vstd::utf8::{decode_utf8, encode_utf8, valid_utf8};
use crate::cli::AddArgs;
use crate::error::Error;
use crate::paths::{file_name, path_file_name};
use crate::text::{
    buffer_views, chars_eq_str, contains_chars, contains_sub, from_chars, lines, slice_chars,
    split_lines, starts_with, starts_with_str, string_views, to_chars, trim, trim_chars,
};

verus! {

/// What `String::from_utf8_lossy` gives for a byte sequence.
pub uninterp spec fn utf8_lossy(bytes: Seq<u8>) -> Seq<char>;

/// The text of bytes, invalid sequences replaced by U+FFFD: std's
/// `String::from_utf8_lossy`, which decodes valid UTF-8 as itself.
#[verifier::external_body]
fn decode_lossy(bytes: &[u8]) -> (r: String)
    ensures
        r@ == utf8_lossy(bytes@),
        valid_utf8(bytes@) ==> r@ == decode_utf8(bytes@),
{
    String::from_utf8_lossy(bytes).into_owned()
}

/// The lines of a text as strings.
pub fn parse_output_text(text: &str) -> (r: Vec<String>)
    ensures
        string_views(r@) == lines(text@),
{
    let ls = split_lines(&to_chars(text));
    let mut out: Vec<String> = Vec::new();
    let mut i: usize = 0;
    while i < ls.len()
        invariant
            i <= ls.len(),
            string_views(out@) == buffer_views(ls@).take(i as int),
        decreases ls.len() - i,
    {
        let ghost before = string_views(out@);
        out.push(from_chars(&ls[i]));
        proof {
            assert(string_views(out@) =~= before.push(ls@[i as int]@));
            assert(buffer_views(ls@).take(i + 1) =~= buffer_views(ls@).take(i as int).push(
                ls@[i as int]@,
            ));
        }
        i = i + 1;
    }
    proof {
        assert(buffer_views(ls@).take(ls.len() as int) =~= buffer_views(ls@));
    }
    out
}

/// Parse git command output into lines.
pub fn parse_output_lines(bytes: &[u8]) -> (r: Vec<String>)
    ensures
        string_views(r@) == lines(utf8_lossy(bytes@)),
{
    let text = decode_lossy(bytes);
    parse_output_text(text.as_str())
}

/// The remote branches worth offering: those that are no `HEAD` pointer.
pub open spec fn without_head(ls: Seq<Seq<char>>) -> Seq<Seq<char>>
    decreases ls.len(),
{
    if ls.len() == 0 {
        seq![]
    } else if contains_sub(ls.last(), "HEAD"@) {
        without_head(ls.drop_last())
    } else {
        without_head(ls.drop_last()).push(ls.last())
    }
}

/// Remote branch names without the `HEAD` pointers.
pub fn filter_remote_branches(names: Vec<String>) -> (r: Vec<String>)
    ensures
        string_views(r@) == without_head(string_views(names@)),
{
    let head = to_chars("HEAD");
    let mut out: Vec<String> = Vec::new();
    let mut i: usize = 0;
    while i < names.len()
        invariant
            i <= names.len(),
            head@ == "HEAD"@,
            string_views(out@) == without_head(string_views(names@).take(i as int)),
        decreases names.len() - i,
    {
        let ghost v = string_views(names@);
        proof {
            assert(v.take(i + 1).drop_last() =~= v.take(i as int));
        }
        let name = to_chars(names[i].as_str());
        if !contains_chars(&name, &head) {
            let ghost before = string_views(out@);
            out.push(names[i].clone());
            proof {
                assert(string_views(out@) =~= before.push(v[i as int]));
            }
        }
        i = i + 1;
    }
    proof {
        assert(string_views(names@).take(names.len() as int) =~= string_views(names@));
    }
    out
}

// ---------------------------------------------------------------------------
// `git worktree list --porcelain`
// ---------------------------------------------------------------------------

/// Information about a worktree.
#[derive(Debug, Clone)]
pub struct WorktreeInfo {
    pub path: String,
    pub head: String,
    pub branch: Option<String>,
    pub is_main: bool,
    pub is_locked: bool,
}

/// The model of a worktree entry.
pub struct WorktreeEntry {
    pub path: Seq<char>,
    pub head: Seq<char>,
    pub branch: Option<Seq<char>>,
    pub is_main: bool,
    pub is_locked: bool,
}

impl WorktreeInfo {
    pub open spec fn entry(&self) -> WorktreeEntry {
        WorktreeEntry {
            path: self.path@,
            head: self.head@,
            branch: match self.branch {
                Some(b) => Some(b@),
                None => None,
            },
            is_main: self.is_main,
            is_locked: self.is_locked,
        }
    }
}

/// The models of worktree entries.
pub open spec fn entries_of(v: Seq<WorktreeInfo>) -> Seq<WorktreeEntry> {
    Seq::new(v.len(), |i: int| v[i].entry())
}

/// The state of reading the porcelain listing: the entries completed, the
/// one being read, and whether no entry has begun yet.
pub struct ListingState {
    pub done: Seq<WorktreeEntry>,
    pub current: Option<WorktreeEntry>,
    pub is_first: bool,
}

pub open spec fn listing_start() -> ListingState {
    ListingState { done: seq![], current: None, is_first: true }
}

/// One line of the listing: `worktree <path>` begins an entry, the first one
/// being the main worktree; `HEAD <hash>`, `branch <ref>` and `locked...`
/// fill in the entry being read; any other line changes nothing.
pub open spec fn listing_step(st: ListingState, line: Seq<char>) -> ListingState {
    if starts_with(line, "worktree "@) {
        ListingState {
            done: match st.current {
                Some(wt) => st.done.push(wt),
                None => st.done,
            },
            current: Some(
                WorktreeEntry {
                    path: line.skip("worktree "@.len() as int),
                    head: seq![],
                    branch: None,
                    is_main: st.is_first,
                    is_locked: false,
                },
            ),
            is_first: false,
        }
    } else if starts_with(line, "HEAD "@) {
        match st.current {
            Some(wt) => ListingState {
                current: Some(WorktreeEntry { head: line.skip("HEAD "@.len() as int), ..wt }),
                ..st
            },
            None => st,
        }
    } else if starts_with(line, "branch "@) {
        match st.current {
            Some(wt) => ListingState {
                current: Some(WorktreeEntry { branch: Some(line.skip("branch "@.len() as int)), ..wt }),
                ..st
            },
            None => st,
        }
    } else if line == "detached"@ {
        st
    } else if starts_with(line, "locked"@) {
        match st.current {
            Some(wt) => ListingState { current: Some(WorktreeEntry { is_locked: true, ..wt }), ..st },
            None => st,
        }
    } else {
        st
    }
}

pub open spec fn listing_fold(ls: Seq<Seq<char>>) -> ListingState
    decreases ls.len(),
{
    if ls.len() == 0 {
        listing_start()
    } else {
        listing_step(listing_fold(ls.drop_last()), ls.last())
    }
}

/// The worktrees of a porcelain listing, in order.
pub open spec fn worktree_entries(text: Seq<char>) -> Seq<WorktreeEntry> {
    listing_entries(lines(text))
}

/// The worktrees of the lines of a porcelain listing, in order.
pub open spec fn listing_entries(ls: Seq<Seq<char>>) -> Seq<WorktreeEntry> {
    let st = listing_fold(ls);
    match st.current {
        Some(wt) => st.done.push(wt),
        None => st.done,
    }
}

/// The state after reading more lines from a given state.
pub open spec fn listing_from(st: ListingState, ls: Seq<Seq<char>>) -> ListingState
    decreases ls.len(),
{
    if ls.len() == 0 {
        st
    } else {
        listing_step(listing_from(st, ls.drop_last()), ls.last())
    }
}

proof fn lemma_listing_concat(a: Seq<Seq<char>>, b: Seq<Seq<char>>)
    ensures
        listing_fold(a + b) == listing_from(listing_fold(a), b),
    decreases b.len(),
{
    if b.len() == 0 {
        assert(a + b =~= a);
    } else {
        lemma_listing_concat(a, b.drop_last());
        assert((a + b).drop_last() =~= a + b.drop_last());
        assert((a + b).last() == b.last());
    }
}

/// Lines that begin no worktree keep the entry being read: its path stays,
/// and once locked it stays locked.
proof fn lemma_listing_keeps_entry(st: ListingState, ls: Seq<Seq<char>>)
    requires
        st.current is Some,
        forall|k: int| 0 <= k < ls.len() ==> !starts_with(#[trigger] ls[k], "worktree "@),
    ensures
        listing_from(st, ls).current is Some,
        listing_from(st, ls).current->0.path == st.current->0.path,
        st.current->0.is_locked ==> listing_from(st, ls).current->0.is_locked,
        listing_from(st, ls).done == st.done,
    decreases ls.len(),
{
    if ls.len() > 0 {
        assert forall|k: int| 0 <= k < ls.drop_last().len() implies !starts_with(
            #[trigger] ls.drop_last()[k],
            "worktree "@,
        ) by {
            assert(ls.drop_last()[k] == ls[k]);
        }
        lemma_listing_keeps_entry(st, ls.drop_last());
        assert(!starts_with(ls[ls.len() - 1], "worktree "@));
    }
}

/// A line that starts with `locked` (a bare `locked`, or `locked` and a
/// reason) marks the worktree whose entry it is in as locked: whatever came
/// before, for a `worktree` line followed by lines that begin no other
/// worktree, one of which starts with `locked`, the last worktree listed has
/// that path and is locked.
pub proof fn law_locked_line_marks_worktree(
    before: Seq<Seq<char>>,
    path: Seq<char>,
    between: Seq<Seq<char>>,
    locked_line: Seq<char>,
    after: Seq<Seq<char>>,
)
    requires
        starts_with(locked_line, "locked"@),
        forall|k: int| 0 <= k < between.len() ==> !starts_with(#[trigger] between[k], "worktree "@),
        forall|k: int| 0 <= k < after.len() ==> !starts_with(#[trigger] after[k], "worktree "@),
    ensures
        ({
            let entries = listing_entries(before + seq!["worktree "@ + path] + between + seq![locked_line] + after);
            &&& entries.len() > 0
            &&& entries.last().path == path
            &&& entries.last().is_locked
        }),
{
    reveal_strlit("worktree ");
    reveal_strlit("locked");
    reveal_strlit("HEAD ");
    reveal_strlit("branch ");
    reveal_strlit("detached");
    let wl = "worktree "@ + path;
    assert(starts_with(wl, "worktree "@)) by {
        assert(wl.take(9) =~= "worktree "@);
    }
    assert(wl.skip(9) =~= path);
    let a = before + seq![wl];
    lemma_listing_concat(before, seq![wl]);
    assert(seq![wl].drop_last() =~= Seq::<Seq<char>>::empty());
    assert(seq![wl].last() == wl);
    assert("worktree "@.len() == 9);
    assert(listing_from(listing_fold(before), Seq::<Seq<char>>::empty()) == listing_fold(before));
    assert(listing_from(listing_fold(before), seq![wl]) == listing_step(listing_fold(before), wl));
    let s1 = listing_fold(a);
    assert(s1.current == Some(
        WorktreeEntry { path, head: seq![], branch: None, is_main: listing_fold(before).is_first, is_locked: false },
    ));
    lemma_listing_concat(a, between);
    lemma_listing_keeps_entry(s1, between);
    let s2 = listing_fold(a + between);
    let b = a + between;
    lemma_listing_concat(b, seq![locked_line]);
    assert(locked_line[0] == 'l') by {
        assert(locked_line.take(6)[0] == locked_line[0]);
        assert("locked"@[0] == 'l');
    }
    assert(!starts_with(locked_line, "worktree "@)) by {
        if locked_line.len() >= 9 {
            assert(locked_line.take(9)[0] == locked_line[0]);
        }
    }
    assert(!starts_with(locked_line, "HEAD "@)) by {
        if locked_line.len() >= 5 {
            assert(locked_line.take(5)[0] == locked_line[0]);
        }
    }
    assert(!starts_with(locked_line, "branch "@)) by {
        if locked_line.len() >= 7 {
            assert(locked_line.take(7)[0] == locked_line[0]);
        }
    }
    assert(locked_line != "detached"@) by {
        assert("detached"@[0] == 'd');
    }
    assert(seq![locked_line].drop_last() =~= Seq::<Seq<char>>::empty());
    assert(seq![locked_line].last() == locked_line);
    assert(listing_from(listing_fold(b), Seq::<Seq<char>>::empty()) == listing_fold(b));
    let s3 = listing_fold(b + seq![locked_line]);
    assert(s3.current is Some && s3.current->0.path == path && s3.current->0.is_locked);
    let c = b + seq![locked_line];
    lemma_listing_concat(c, after);
    lemma_listing_keeps_entry(s3, after);
    assert(before + seq![wl] + between + seq![locked_line] + after == c + after);
}

/// Only the first entry begun is the main worktree.
pub open spec fn main_first(st: ListingState) -> bool {
    &&& st.is_first <==> (st.done.len() == 0 && st.current is None)
    &&& forall|i: int| 0 <= i < st.done.len() ==> (#[trigger] st.done[i].is_main <==> i == 0)
    &&& st.current matches Some(wt) ==> (wt.is_main <==> st.done.len() == 0)
}

proof fn lemma_listing_main_first(ls: Seq<Seq<char>>)
    ensures
        main_first(listing_fold(ls)),
    decreases ls.len(),
{
    if ls.len() > 0 {
        lemma_listing_main_first(ls.drop_last());
    }
}

/// In a listing, exactly the first worktree is the main one.
pub proof fn law_only_first_worktree_is_main(text: Seq<char>)
    ensures
        forall|i: int|
            0 <= i < worktree_entries(text).len() ==> (#[trigger] worktree_entries(text)[i].is_main
                <==> i == 0),
{
    lemma_listing_main_first(lines(text));
}

fn strip_to_string(line: &Vec<char>, n: usize) -> (r: String)
    requires
        n <= line@.len(),
    ensures
        r@ == line@.skip(n as int),
{
    let rest = slice_chars(line, n, line.len());
    proof {
        assert(line@.subrange(n as int, line@.len() as int) =~= line@.skip(n as int));
    }
    from_chars(&rest)
}

/// The worktrees of a porcelain listing.
pub fn parse_worktree_text(text: &str) -> (r: Vec<WorktreeInfo>)
    ensures
        entries_of(r@) == worktree_entries(text@),
        forall|i: int| 0 <= i < r@.len() ==> (#[trigger] r@[i].is_main <==> i == 0),
{
    proof {
        law_only_first_worktree_is_main(text@);
    }
    let ls = split_lines(&to_chars(text));
    let ghost lv = buffer_views(ls@);
    let mut worktrees: Vec<WorktreeInfo> = Vec::new();
    let mut current: Option<WorktreeInfo> = None;
    let mut is_first = true;
    let mut i: usize = 0;
    while i < ls.len()
        invariant
            i <= ls.len(),
            lv == buffer_views(ls@),
            lv == lines(text@),
            entries_of(worktrees@) == listing_fold(lv.take(i as int)).done,
            match current {
                Some(wt) => listing_fold(lv.take(i as int)).current == Some(wt.entry()),
                None => listing_fold(lv.take(i as int)).current is None,
            },
            is_first == listing_fold(lv.take(i as int)).is_first,
        decreases ls.len() - i,
    {
        proof {
            reveal_strlit("worktree ");
            reveal_strlit("HEAD ");
            reveal_strlit("branch ");
            assert(lv.take(i + 1).drop_last() =~= lv.take(i as int));
            assert(lv.take(i + 1).last() == ls@[i as int]@);
        }
        let line = &ls[i];
        if starts_with_str(line, "worktree ") {
            let ghost before = entries_of(worktrees@);
            match current {
                Some(wt) => {
                    let ghost e = wt.entry();
                    worktrees.push(wt);
                    proof {
                        assert(entries_of(worktrees@) =~= before.push(e));
                    }
                },
                None => {},
            }
            current = Some(
                WorktreeInfo {
                    path: strip_to_string(line, 9),
                    head: String::new(),
                    branch: None,
                    is_main: is_first,
                    is_locked: false,
                },
            );
            is_first = false;
        } else if starts_with_str(line, "HEAD ") {
            match &mut current {
                Some(wt) => {
                    wt.head = strip_to_string(line, 5);
                },
                None => {},
            }
        } else if starts_with_str(line, "branch ") {
            match &mut current {
                Some(wt) => {
                    wt.branch = Some(strip_to_string(line, 7));
                },
                None => {},
            }
        } else if chars_eq_str(line, "detached") {
        } else if starts_with_str(line, "locked") {
            match &mut current {
                Some(wt) => {
                    wt.is_locked = true;
                },
                None => {},
            }
        }
        i = i + 1;
    }
    proof {
        assert(lv.take(ls.len() as int) =~= lv);
    }
    let ghost before = entries_of(worktrees@);
    match current {
        Some(wt) => {
            let ghost e = wt.entry();
            worktrees.push(wt);
            proof {
                assert(entries_of(worktrees@) =~= before.push(e));
            }
        },
        None => {},
    }
    proof {
        assert forall|i: int| 0 <= i < worktrees@.len() implies (#[trigger] worktrees@[i].is_main
            <==> i == 0) by {
            assert(entries_of(worktrees@)[i] == worktrees@[i].entry());
            assert(entries_of(worktrees@) == worktree_entries(text@));
            assert(worktree_entries(text@)[i].is_main <==> i == 0);
        }
    }
    worktrees
}

/// Parse `git worktree list --porcelain` output.
pub fn parse_worktree_list(bytes: &[u8]) -> (r: Result<Vec<WorktreeInfo>, Error>)
    ensures
        r matches Ok(v) && entries_of(v@) == worktree_entries(utf8_lossy(bytes@)),
{
    let text = decode_lossy(bytes);
    Ok(parse_worktree_text(text.as_str()))
}

// ---------------------------------------------------------------------------
// `git status --porcelain`
// ---------------------------------------------------------------------------

/// Working tree status information.
#[derive(Debug, Clone, Default)]
pub struct WorktreeStatus {
    pub has_uncommitted_changes: bool,
    pub modified_count: usize,
    pub deleted_count: usize,
    pub untracked_count: usize,
}

/// Counts of changed files.
pub struct StatusCounts {
    pub modified: nat,
    pub deleted: nat,
    pub untracked: nat,
}

/// The status character at position `k` of a line, a space where the line
/// is shorter.
pub open spec fn status_char(line: Seq<char>, k: int) -> char {
    if k < line.len() {
        line[k]
    } else {
        ' '
    }
}

/// One status line: `??` is untracked; an `M` in either column modified; a
/// `D` in either column deleted; an `A` in the index column modified.  Lines
/// of fewer than two bytes are skipped.
pub open spec fn status_step(c: StatusCounts, line: Seq<char>) -> StatusCounts {
    let index = status_char(line, 0);
    let worktree = status_char(line, 1);
    if encode_utf8(line).len() < 2 {
        c
    } else if index == '?' && worktree == '?' {
        StatusCounts { untracked: c.untracked + 1, ..c }
    } else if index == 'M' || worktree == 'M' {
        StatusCounts { modified: c.modified + 1, ..c }
    } else if index == 'D' || worktree == 'D' {
        StatusCounts { deleted: c.deleted + 1, ..c }
    } else if index == 'A' {
        StatusCounts { modified: c.modified + 1, ..c }
    } else {
        c
    }
}

pub open spec fn status_fold(ls: Seq<Seq<char>>) -> StatusCounts
    decreases ls.len(),
{
    if ls.len() == 0 {
        StatusCounts { modified: 0, deleted: 0, untracked: 0 }
    } else {
        status_step(status_fold(ls.drop_last()), ls.last())
    }
}

/// A text takes fewer than two bytes in UTF-8 exactly when it is empty or
/// one ASCII character.
proof fn lemma_short_in_bytes(line: Seq<char>)
    ensures
        (encode_utf8(line).len() < 2) <==> (line.len() == 0 || (line.len() == 1 && (line[0] as u32)
            <= 0x7F)),
{
    if line.len() > 0 {
        let rest = line.drop_first();
        assert(encode_utf8(line) == vstd::utf8::encode_scalar(line[0] as u32) + encode_utf8(rest));
        if rest.len() > 0 {
            assert(encode_utf8(rest) == vstd::utf8::encode_scalar(rest[0] as u32) + encode_utf8(
                rest.drop_first(),
            ));
        } else {
            assert(encode_utf8(rest) == Seq::<u8>::empty());
        }
    }
}

proof fn lemma_status_fold_bound(ls: Seq<Seq<char>>)
    ensures
        status_fold(ls).modified + status_fold(ls).deleted + status_fold(ls).untracked <= ls.len(),
    decreases ls.len(),
{
    if ls.len() > 0 {
        lemma_status_fold_bound(ls.drop_last());
    }
}

/// How one more status line changes the counts.  A line of at least two
/// characters other than `??` that has an `M` in its index or worktree
/// column adds one modified file and nothing else, whatever the other
/// column holds; a line adds a deleted file only when neither column is `M`
/// and one is `D`; and every line adds to one count at most.
pub proof fn law_status_line_counts(before: Seq<Seq<char>>, line: Seq<char>)
    ensures
        ({
            let c0 = status_fold(before);
            let c1 = status_fold(before.push(line));
            &&& line.len() >= 2 && !(line[0] == '?' && line[1] == '?') && (line[0] == 'M'
                || line[1] == 'M') ==> c1 == StatusCounts { modified: c0.modified + 1, ..c0 }
            &&& c1.deleted == c0.deleted + 1 ==> line.len() >= 2 && line[0] != 'M' && line[1] != 'M'
                && (line[0] == 'D' || line[1] == 'D')
            &&& line.len() >= 2 && line[0] == '?' && line[1] == '?' ==> c1 == StatusCounts {
                untracked: c0.untracked + 1,
                ..c0
            }
            &&& c0.modified <= c1.modified <= c0.modified + 1
            &&& c0.deleted <= c1.deleted <= c0.deleted + 1
            &&& c0.untracked <= c1.untracked <= c0.untracked + 1
            &&& c1.modified + c1.deleted + c1.untracked <= c0.modified + c0.deleted + c0.untracked + 1
        }),
{
    lemma_short_in_bytes(line);
    assert(before.push(line).drop_last() =~= before);
}

/// The status of a `git status --porcelain` text.
pub open spec fn status_of(text: Seq<char>) -> StatusCounts {
    status_fold(lines(text))
}

/// The status of a `git status --porcelain` text.
pub fn parse_status_text(text: &str) -> (r: WorktreeStatus)
    ensures
        r.modified_count == status_of(text@).modified,
        r.deleted_count == status_of(text@).deleted,
        r.untracked_count == status_of(text@).untracked,
        r.has_uncommitted_changes == (r.modified_count > 0 || r.deleted_count > 0
            || r.untracked_count > 0),
{
    let ls = split_lines(&to_chars(text));
    let ghost lv = buffer_views(ls@);
    let mut modified_count: usize = 0;
    let mut deleted_count: usize = 0;
    let mut untracked_count: usize = 0;
    let mut i: usize = 0;
    while i < ls.len()
        invariant
            i <= ls.len(),
            lv == buffer_views(ls@),
            modified_count == status_fold(lv.take(i as int)).modified,
            deleted_count == status_fold(lv.take(i as int)).deleted,
            untracked_count == status_fold(lv.take(i as int)).untracked,
            modified_count + deleted_count + untracked_count <= i,
        decreases ls.len() - i,
    {
        proof {
            assert(lv.take(i + 1).drop_last() =~= lv.take(i as int));
            assert(lv.take(i + 1).last() == ls@[i as int]@);
        }
        let line = &ls[i];
        proof {
            lemma_short_in_bytes(line@);
        }
        if !(line.len() == 0 || (line.len() == 1 && (line[0] as u32) <= 0x7F)) {
            let index = if line.len() > 0 {
                line[0]
            } else {
                ' '
            };
            let worktree = if line.len() > 1 {
                line[1]
            } else {
                ' '
            };
            if index == '?' && worktree == '?' {
                untracked_count = untracked_count + 1;
            } else if index == 'M' || worktree == 'M' {
                modified_count = modified_count + 1;
            } else if index == 'D' || worktree == 'D' {
                deleted_count = deleted_count + 1;
            } else if index == 'A' {
                modified_count = modified_count + 1;
            }
        }
        i = i + 1;
    }
    proof {
        assert(lv.take(ls.len() as int) =~= lv);
    }
    let has_uncommitted_changes = modified_count > 0 || deleted_count > 0 || untracked_count > 0;
    WorktreeStatus { has_uncommitted_changes, modified_count, deleted_count, untracked_count }
}

/// Parse `git status --porcelain` output.
pub fn parse_status_output(bytes: &[u8]) -> (r: Result<WorktreeStatus, Error>)
    ensures
        r matches Ok(st) && {
            let c = status_of(utf8_lossy(bytes@));
            &&& st.modified_count == c.modified
            &&& st.deleted_count == c.deleted
            &&& st.untracked_count == c.untracked
            &&& st.has_uncommitted_changes == (c.modified > 0 || c.deleted > 0 || c.untracked > 0)
        },
{
    let text = decode_lossy(bytes);
    Ok(parse_status_text(text.as_str()))
}

// ---------------------------------------------------------------------------
// `git log --oneline`
// ---------------------------------------------------------------------------

/// Unpushed commits information.
#[derive(Debug, Clone, Default)]
pub struct UnpushedCommits {
    pub has_unpushed: bool,
    pub count: usize,
}

/// Parse `git log --oneline` output: one commit per line.
pub fn parse_log_output(bytes: &[u8]) -> (r: Result<UnpushedCommits, Error>)
    ensures
        r matches Ok(u) && u.count == lines(utf8_lossy(bytes@)).len() && u.has_unpushed == (u.count
            > 0),
{
    let lines = parse_output_lines(bytes);
    let count = lines.len();
    Ok(UnpushedCommits { has_unpushed: count > 0, count })
}

/// No unpushed commits: what is reported when they cannot be counted.
pub fn no_unpushed() -> (r: UnpushedCommits)
    ensures
        !r.has_unpushed && r.count == 0,
{
    UnpushedCommits { has_unpushed: false, count: 0 }
}

// ---------------------------------------------------------------------------
// Repository root and name, `git worktree add`
// ---------------------------------------------------------------------------

/// The repository root from the output of `git rev-parse --show-toplevel`.
pub fn repo_root_from_output(success: bool, stdout: &[u8]) -> (r: Result<String, Error>)
    ensures
        success ==> (r matches Ok(p) && p@ == trim(utf8_lossy(stdout@))),
        !success ==> r matches Err(Error::NotInGitRepo),
{
    if !success {
        return Err(Error::NotInGitRepo);
    }
    let text = decode_lossy(stdout);
    Ok(from_chars(&trim_chars(&to_chars(text.as_str()))))
}

/// The repository name: the final component of its root.
pub fn repo_name(root: &str) -> (r: Result<String, Error>)
    ensures
        match file_name(root@) {
            Some(n) => r matches Ok(s) && s@ == n,
            None => r matches Err(Error::NotInGitRepo),
        },
{
    match path_file_name(root) {
        Some(n) => Ok(n),
        None => Err(Error::NotInGitRepo),
    }
}

/// An option flag, when it is set.
pub open spec fn flag(set: bool, name: Seq<char>) -> Seq<Seq<char>> {
    if set {
        seq![name]
    } else {
        seq![]
    }
}

/// An option with a value, when it is given.
pub open spec fn opt_arg(value: Option<String>, name: Seq<char>) -> Seq<Seq<char>> {
    match value {
        Some(v) => seq![name, v@],
        None => seq![],
    }
}

/// The arguments of `git` for `git worktree add`.
pub open spec fn worktree_add_argv(args: AddArgs, path: Seq<char>) -> Seq<Seq<char>> {
    seq!["worktree"@, "add"@] + flag(args.force, "--force"@) + flag(args.detach, "--detach"@)
        + opt_arg(args.new_branch, "-b"@) + opt_arg(args.new_branch_force, "-B"@) + flag(
        args.no_checkout,
        "--no-checkout"@,
    ) + flag(args.lock, "--lock"@) + flag(args.track, "--track"@) + flag(
        args.no_track,
        "--no-track"@,
    ) + flag(args.guess_remote, "--guess-remote"@) + flag(
        args.no_guess_remote,
        "--no-guess-remote"@,
    ) + flag(args.quiet, "--quiet"@) + seq![path] + match args.commitish {
        Some(c) => seq![c@],
        None => seq![],
    }
}

fn push_arg(argv: &mut Vec<String>, a: &str)
    ensures
        string_views(final(argv)@) == string_views(old(argv)@).push(a@),
{
    let ghost before = string_views(argv@);
    argv.push(a.to_owned());
    proof {
        assert(string_views(argv@) =~= before.push(a@));
    }
}

fn push_flag(argv: &mut Vec<String>, set: bool, name: &str)
    ensures
        string_views(final(argv)@) == string_views(old(argv)@) + flag(set, name@),
{
    if set {
        push_arg(argv, name);
    } else {
        proof {
            assert(string_views(argv@) + seq![] =~= string_views(argv@));
        }
    }
}

fn push_opt(argv: &mut Vec<String>, value: &Option<String>, name: &str)
    ensures
        string_views(final(argv)@) == string_views(old(argv)@) + opt_arg(*value, name@),
{
    match value {
        Some(v) => {
            let ghost before = string_views(argv@);
            push_arg(argv, name);
            push_arg(argv, v.as_str());
            proof {
                assert(before.push(name@).push(v@) =~= before + seq![name@, v@]);
            }
        },
        None => {
            proof {
                assert(string_views(argv@) + seq![] =~= string_views(argv@));
            }
        },
    }
}

/// The arguments of `git` that add a worktree at `path`.
pub fn worktree_add_args(args: &AddArgs, path: &str) -> (r: Vec<String>)
    ensures
        string_views(r@) == worktree_add_argv(*args, path@),
{
    let mut argv: Vec<String> = Vec::new();
    push_arg(&mut argv, "worktree");
    push_arg(&mut argv, "add");
    proof {
        assert(string_views(argv@) =~= seq!["worktree"@, "add"@]);
    }
    push_flag(&mut argv, args.force, "--force");
    push_flag(&mut argv, args.detach, "--detach");
    push_opt(&mut argv, &args.new_branch, "-b");
    push_opt(&mut argv, &args.new_branch_force, "-B");
    push_flag(&mut argv, args.no_checkout, "--no-checkout");
    push_flag(&mut argv, args.lock, "--lock");
    push_flag(&mut argv, args.track, "--track");
    push_flag(&mut argv, args.no_track, "--no-track");
    push_flag(&mut argv, args.guess_remote, "--guess-remote");
    push_flag(&mut argv, args.no_guess_remote, "--no-guess-remote");
    push_flag(&mut argv, args.quiet, "--quiet");
    let ghost before_path = string_views(argv@);
    push_arg(&mut argv, path);
    let ghost with_path = string_views(argv@);
    match &args.commitish {
        Some(c) => {
            push_arg(&mut argv, c.as_str());
            proof {
                assert(string_views(argv@) =~= before_path + seq![path@] + seq![c@]);
            }
        },
        None => {
            proof {
                assert(string_views(argv@) =~= before_path + seq![path@] + seq![]);
            }
        },
    }
    argv
}

/// The outcome of `git worktree add`, from its exit status and stderr.
pub fn worktree_add_result(success: bool, stderr: &[u8]) -> (r: Result<(), Error>)
    ensures
        success ==> r is Ok,
        !success ==> (r matches Err(Error::GitWorktreeAddFailed { stderr: e }) && e@ == utf8_lossy(
            stderr@,
        )),
{
    if success {
        Ok(())
    } else {
        Err(Error::GitWorktreeAddFailed { stderr: decode_lossy(stderr) })
    }
}

/// The arguments of `git` that remove a worktree.
pub fn worktree_remove_args(path: &str, force: bool) -> (r: Vec<String>)
    ensures
        string_views(r@) == seq!["worktree"@, "remove"@] + flag(force, "--force"@) + seq![path@],
{
    let mut argv: Vec<String> = Vec::new();
    push_arg(&mut argv, "worktree");
    push_arg(&mut argv, "remove");
    proof {
        assert(string_views(argv@) =~= seq!["worktree"@, "remove"@]);
    }
    push_flag(&mut argv, force, "--force");
    push_arg(&mut argv, path);
    argv
}

/// The warning shown when removing a worktree during rollback fails.
pub fn worktree_remove_warning(stderr: &[u8]) -> (r: String)
    ensures
        r@ == "Warning: Failed to remove worktree: "@ + trim(utf8_lossy(stderr@)),
{
    let text = decode_lossy(stderr);
    let mut out = to_chars("Warning: Failed to remove worktree: ");
    crate::text::push_all(&mut out, &trim_chars(&to_chars(text.as_str())));
    from_chars(&out)
}

/// The remote branch a checked-out branch is compared with: `origin/` and
/// the branch named by `git rev-parse --abbrev-ref HEAD`; none for a
/// detached HEAD.
pub fn remote_ref_for(branch_stdout: &[u8]) -> (r: Option<String>)
    ensures
        trim(utf8_lossy(branch_stdout@)) == "HEAD"@ ==> r is None,
        trim(utf8_lossy(branch_stdout@)) != "HEAD"@ ==> (r matches Some(s) && s@ == "origin/"@ + trim(
            utf8_lossy(branch_stdout@),
        )),
{
    let text = decode_lossy(branch_stdout);
    let branch = trim_chars(&to_chars(text.as_str()));
    if chars_eq_str(&branch, "HEAD") {
        return None;
    }
    let mut out = to_chars("origin/");
    crate::text::push_all(&mut out, &branch);
    Some(from_chars(&out))
}

/// The commits on HEAD that the remote branch lacks: `<remote>..HEAD`.
pub fn unpushed_range(remote_ref: &str) -> (r: String)
    ensures
        r@ == remote_ref@ + "..HEAD"@,
{
    let mut out = to_chars(remote_ref);
    crate::text::push_str(&mut out, "..HEAD");
    from_chars(&out)
}

} // verus!
