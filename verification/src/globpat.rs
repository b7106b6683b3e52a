//! Section name patterns are matched against paths by the `globset` crate.
//! Compilation of a pattern and the verdict of its matcher are both pure
//! functions of the text involved; they are named here and the one call
//! into `globset` is trusted to return them.

use vstd::prelude::*;

verus! {

/// The longest section name ever handed to `globset`.  `globset` builds a
/// matcher by compiling the pattern's regex with a fixed program-size
/// limit, and aborts when the limit is exceeded; a pattern within this
/// length compiles to a program well inside it.  Resolution treats a
/// longer name as matching nothing, so the limit is never reached.
pub const MAX_GLOB_LEN: usize = 4096;

/// Whether `globset` accepts `pattern` as a well-formed glob.
pub uninterp spec fn glob_ok(pattern: Seq<char>) -> bool;

/// Whether the matcher compiled from `pattern` matches `path`.
pub uninterp spec fn glob_match(pattern: Seq<char>, path: Seq<char>) -> bool;

/// Relies on `globset::Glob::new` and `globset::GlobMatcher::is_match`:
/// compiling a pattern with default options and running its matcher are
/// deterministic in the pattern and path text, and a pattern that does not
/// compile matches nothing.  Both verdicts are read over `/`-separated
/// text: `\` is a platform-dependent case (an escape in patterns where it
/// is no separator; rewritten to `/` in paths on platforms that separate
/// with it), and no separator but `/` is used here.  The length bound
/// keeps the pattern's compiled program inside the fixed size limit that
/// `compile_matcher` unwraps, so the call always returns.
#[verifier::external_body]
pub(crate) fn glob_is_match(pattern: &str, path: &str) -> (r: bool)
    requires
        pattern@.len() <= MAX_GLOB_LEN,
    ensures
        r == (glob_ok(pattern@) && glob_match(pattern@, path@)),
{
    match globset::Glob::new(pattern) {
        Ok(glob) => glob.compile_matcher().is_match(path),
        Err(_) => false,
    }
}

} // verus!
