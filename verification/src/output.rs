//! The lines that the commands print, suppressed in quiet mode.
//!
//! Each method returns the line to print, or `None` in quiet mode; printing
//! it is left to the caller.

use vstd::prelude::*;
use crate::paths::{file_name_or_empty, path_file_name};
use crate::text::{chars_eq, from_chars, push_all, push_str, to_chars};

verus! {

/// Output manager that respects quiet mode.
#[derive(Debug, Clone)]
pub struct Output {
    pub quiet: bool,
}

/// A line that is printed unless the output is quiet.
pub open spec fn unless_quiet(quiet: bool, r: Option<String>, line: Seq<char>) -> bool {
    match r {
        Some(s) => !quiet && s@ == line,
        None => quiet,
    }
}

/// `base`, followed by ` (description)` where there is one.
pub open spec fn with_description(base: Seq<char>, description: Option<Seq<char>>) -> Seq<char> {
    match description {
        Some(d) => base + " ("@ + d + ")"@,
        None => base,
    }
}

/// The line of a link or copy operation: the file names of source and
/// target, the target only where it differs.
pub open spec fn file_op_line(
    op: Seq<char>,
    source: Seq<char>,
    target: Seq<char>,
    description: Option<Seq<char>>,
) -> Seq<char> {
    let s = file_name_or_empty(source);
    let t = file_name_or_empty(target);
    let base = if s == t {
        op + ": "@ + s
    } else {
        op + ": "@ + s + " → "@ + t
    };
    with_description(base, description)
}

/// The view of an optional text.
pub open spec fn opt_str_view(o: Option<&str>) -> Option<Seq<char>> {
    match o {
        Some(s) => Some(s@),
        None => None,
    }
}

fn push_description(out: &mut Vec<char>, description: Option<&str>)
    ensures
        final(out)@ == with_description(old(out)@, opt_str_view(description)),
{
    match description {
        Some(d) => {
            push_str(out, " (");
            push_str(out, d);
            push_str(out, ")");
        },
        None => {},
    }
}

fn file_name_text(p: &str) -> (r: Vec<char>)
    ensures
        r@ == file_name_or_empty(p@),
{
    match path_file_name(p) {
        Some(n) => to_chars(n.as_str()),
        None => Vec::new(),
    }
}

impl Output {
    /// Create a new Output instance.
    pub fn new(quiet: bool) -> (r: Self)
        ensures
            r.quiet == quiet,
    {
        Output { quiet }
    }

    /// A success message.
    pub fn success(&self, message: &str) -> (r: Option<String>)
        ensures
            unless_quiet(self.quiet, r, message@),
    {
        if self.quiet {
            None
        } else {
            Some(message.to_owned())
        }
    }

    /// A directory creation.
    pub fn mkdir(&self, path: &str, description: Option<&str>) -> (r: Option<String>)
        ensures
            unless_quiet(
                self.quiet,
                r,
                with_description("Creating: "@ + path@, opt_str_view(description)),
            ),
    {
        if self.quiet {
            return None;
        }
        let mut out = to_chars("Creating: ");
        push_str(&mut out, path);
        push_description(&mut out, description);
        Some(from_chars(&out))
    }

    /// A link or copy operation.
    fn print_file_op(&self, op: &str, source: &str, target: &str, description: Option<&str>) -> (r:
        Option<String>)
        ensures
            unless_quiet(self.quiet, r, file_op_line(op@, source@, target@, opt_str_view(description))),
    {
        if self.quiet {
            return None;
        }
        let source_str = file_name_text(source);
        let target_str = file_name_text(target);
        let mut out = to_chars(op);
        push_str(&mut out, ": ");
        push_all(&mut out, &source_str);
        if !chars_eq(&source_str, &target_str) {
            push_str(&mut out, " → ");
            push_all(&mut out, &target_str);
        }
        push_description(&mut out, description);
        Some(from_chars(&out))
    }

    /// A symlink operation.
    pub fn link(&self, source: &str, target: &str, description: Option<&str>) -> (r: Option<String>)
        ensures
            unless_quiet(
                self.quiet,
                r,
                file_op_line("Linking"@, source@, target@, opt_str_view(description)),
            ),
    {
        self.print_file_op("Linking", source, target, description)
    }

    /// A copy operation.
    pub fn copy(&self, source: &str, target: &str, description: Option<&str>) -> (r: Option<String>)
        ensures
            unless_quiet(
                self.quiet,
                r,
                file_op_line("Copying"@, source@, target@, opt_str_view(description)),
            ),
    {
        self.print_file_op("Copying", source, target, description)
    }

    /// A skipped operation.
    pub fn skip(&self, path: &str) -> (r: Option<String>)
        ensures
            unless_quiet(self.quiet, r, "Skipped: "@ + path@ + " (conflict)"@),
    {
        if self.quiet {
            return None;
        }
        let mut out = to_chars("Skipped: ");
        push_str(&mut out, path);
        push_str(&mut out, " (conflict)");
        Some(from_chars(&out))
    }

    /// A dry-run message.
    pub fn dry_run(&self, message: &str) -> (r: Option<String>)
        ensures
            unless_quiet(self.quiet, r, "[dry-run] "@ + message@),
    {
        if self.quiet {
            return None;
        }
        let mut out = to_chars("[dry-run] ");
        push_str(&mut out, message);
        Some(from_chars(&out))
    }

    /// A worktree removal.
    pub fn remove(&self, path: &str) -> (r: Option<String>)
        ensures
            unless_quiet(self.quiet, r, "Removed: "@ + path@),
    {
        if self.quiet {
            return None;
        }
        let mut out = to_chars("Removed: ");
        push_str(&mut out, path);
        Some(from_chars(&out))
    }

    /// A safety warning.
    pub fn safety_warning(&self, path: &str, message: &str) -> (r: Option<String>)
        ensures
            unless_quiet(self.quiet, r, "Warning: "@ + path@ + " - "@ + message@),
    {
        if self.quiet {
            return None;
        }
        let mut out = to_chars("Warning: ");
        push_str(&mut out, path);
        push_str(&mut out, " - ");
        push_str(&mut out, message);
        Some(from_chars(&out))
    }
}

} // verus!
