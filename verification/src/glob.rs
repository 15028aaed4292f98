//! Glob patterns, matched by `globset`.

use vstd::prelude::*;

verus! {

#[verifier::external_type_specification]
#[verifier::external_body]
pub struct ExGlobSet(globset::GlobSet);

/// Whether `globset` compiles a pattern (with `literal_separator` on).  It
/// stands for two calls made one after the other: `GlobBuilder::build`,
/// which parses the pattern, then `GlobSetBuilder::build` on the one glob,
/// which builds its matcher within the regex engine's limits (nesting
/// depth, automaton size).  It holds when both succeed.
pub uninterp spec fn glob_pattern_valid(pattern: Seq<char>) -> bool;

/// Whether `globset`'s matcher for a pattern (with `literal_separator` on)
/// matches a path.
pub uninterp spec fn glob_matches(pattern: Seq<char>, path: Seq<char>) -> bool;

/// The longest pattern compiled here.  A literal part longer than
/// `aho-corasick`'s state limit (about two billion bytes) makes `globset`
/// panic, so patterns are kept well below it.
pub open spec fn glob_pattern_limit() -> nat {
    0x1000_0000
}

/// A compiled glob pattern, with the pattern it was compiled from.
pub struct CompiledGlob {
    matcher: globset::GlobSet,
    pattern: String,
}

impl CompiledGlob {
    /// The pattern the glob was compiled from.
    pub closed spec fn pattern(&self) -> Seq<char> {
        self.pattern@
    }
}

/// Compile a glob pattern in which `*` does not cross `/`:
/// `globset::GlobBuilder::new(pattern).literal_separator(true).build()`, then
/// a `globset::GlobSetBuilder` holding that one glob is built; both return
/// `Result`, so a pattern that cannot be compiled (a syntax error, or a regex
/// past the engine's limits) gives `Err` with the error's text, and nothing
/// panics.
#[verifier::external_body]
pub(crate) fn build_glob(pattern: &str) -> (r: Result<CompiledGlob, String>)
    requires
        pattern@.len() < glob_pattern_limit(),
    ensures
        (r is Ok) == glob_pattern_valid(pattern@),
        r matches Ok(g) ==> g.pattern() == pattern@,
{
    match globset::GlobBuilder::new(pattern).literal_separator(true).build() {
        Ok(glob) => match globset::GlobSetBuilder::new().add(glob).build() {
            Ok(set) => Ok(CompiledGlob { matcher: set, pattern: pattern.to_owned() }),
            Err(e) => Err(e.to_string()),
        },
        Err(e) => Err(e.to_string()),
    }
}

/// Whether the compiled glob matches a path: `globset::GlobSet::is_match` on
/// the set that holds the one glob.
#[verifier::external_body]
pub(crate) fn glob_is_match(g: &CompiledGlob, path: &str) -> (r: bool)
    ensures
        r == glob_matches(g.pattern(), path@),
{
    g.matcher.is_match(path)
}

} // verus!
