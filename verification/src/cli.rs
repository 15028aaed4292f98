//! Command-line arguments the library works with, and the parsing of the
//! `--on-conflict` value.

use vstd::prelude::*;
use crate::config::OnConflict;
use crate::text::{chars_eq_str, from_chars, push_str, to_chars};

verus! {

/// How to handle a file that is already there, as given on the command line.
#[derive(Debug, Clone, Copy, PartialEq, Eq, Structural)]
pub enum OnConflictArg {
    Abort,
    Skip,
    Overwrite,
    Backup,
}

impl OnConflictArg {
    /// The configuration mode of the argument.
    pub fn to_on_conflict(self) -> (r: OnConflict)
        ensures
            r == match self {
                OnConflictArg::Abort => OnConflict::Abort,
                OnConflictArg::Skip => OnConflict::Skip,
                OnConflictArg::Overwrite => OnConflict::Overwrite,
                OnConflictArg::Backup => OnConflict::Backup,
            },
    {
        match self {
            OnConflictArg::Abort => OnConflict::Abort,
            OnConflictArg::Skip => OnConflict::Skip,
            OnConflictArg::Overwrite => OnConflict::Overwrite,
            OnConflictArg::Backup => OnConflict::Backup,
        }
    }
}

/// What `str::to_lowercase` gives for a text.
pub uninterp spec fn unicode_lowercase(s: Seq<char>) -> Seq<char>;

/// The Unicode lowercase of a text: std's `str::to_lowercase`.
#[verifier::external_body]
fn to_lowercase(s: &str) -> (r: String)
    ensures
        r@ == unicode_lowercase(s@),
{
    s.to_lowercase()
}

/// The mode that a lowercase name stands for.
pub open spec fn on_conflict_named(lower: Seq<char>) -> Option<OnConflictArg> {
    if lower == "abort"@ {
        Some(OnConflictArg::Abort)
    } else if lower == "skip"@ {
        Some(OnConflictArg::Skip)
    } else if lower == "overwrite"@ {
        Some(OnConflictArg::Overwrite)
    } else if lower == "backup"@ {
        Some(OnConflictArg::Backup)
    } else {
        None
    }
}

/// The message for a value that names no mode.
pub open spec fn invalid_on_conflict(s: Seq<char>) -> Seq<char> {
    "Invalid on-conflict mode: "@ + s + ". Valid values: abort, skip, overwrite, backup"@
}

/// The mode named by `lower`, the lowercase form of `s`; the error names `s`.
pub fn on_conflict_from_lowercase(s: &str, lower: &str) -> (r: Result<OnConflictArg, String>)
    ensures
        match on_conflict_named(lower@) {
            Some(m) => r == Ok::<OnConflictArg, String>(m),
            None => r matches Err(e) && e@ == invalid_on_conflict(s@),
        },
{
    let l = to_chars(lower);
    if chars_eq_str(&l, "abort") {
        Ok(OnConflictArg::Abort)
    } else if chars_eq_str(&l, "skip") {
        Ok(OnConflictArg::Skip)
    } else if chars_eq_str(&l, "overwrite") {
        Ok(OnConflictArg::Overwrite)
    } else if chars_eq_str(&l, "backup") {
        Ok(OnConflictArg::Backup)
    } else {
        let mut msg = to_chars("Invalid on-conflict mode: ");
        push_str(&mut msg, s);
        push_str(&mut msg, ". Valid values: abort, skip, overwrite, backup");
        Err(from_chars(&msg))
    }
}

impl OnConflictArg {
    /// Parse a mode, ignoring case.
    pub fn from_str(s: &str) -> (r: Result<OnConflictArg, String>)
        ensures
            match on_conflict_named(unicode_lowercase(s@)) {
                Some(m) => r == Ok::<OnConflictArg, String>(m),
                None => r matches Err(e) && e@ == invalid_on_conflict(s@),
            },
    {
        let lower = to_lowercase(s);
        on_conflict_from_lowercase(s, lower.as_str())
    }
}

/// The arguments of `add`.
#[derive(Debug, Clone, Default)]
pub struct AddArgs {
    pub path: Option<String>,
    pub commitish: Option<String>,
    pub interactive: bool,
    pub on_conflict: Option<OnConflictArg>,
    pub dry_run: bool,
    pub no_setup: bool,
    pub new_branch: Option<String>,
    pub new_branch_force: Option<String>,
    pub force: bool,
    pub detach: bool,
    pub no_checkout: bool,
    pub lock: bool,
    pub track: bool,
    pub no_track: bool,
    pub guess_remote: bool,
    pub no_guess_remote: bool,
    pub quiet: bool,
}

} // verus!
