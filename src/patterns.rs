//! The regular expressions of the library, and the one call that applies
//! them.

use vstd::prelude::*;
use crate::dimensions::strip_csi;

verus! {

/// ANSI CSI sequences: `ESC [`, then digits and semicolons ending in a
/// digit, then one ASCII letter.
pub const CSI_PATTERN: &'static str = "\\x1b\\[[0-9;]*[0-9][A-Za-z]";

/// A core count written into a processor's name ("8-Core").
pub const CORE_COUNT_PATTERN: &'static str = "(?i)\\d\\d?-Core";

/// The compute-core note of some AMD names.
pub const COMPUTE_CORES_PATTERN: &'static str = "(?i), .*? Compute Cores";

/// The vendor tag of some AMD names.
pub const AUTHENTIC_AMD_PATTERN: &'static str = "(?i)\\(\"AuthenticAMD\".*?\\)";

/// The integrated-graphics note of some AMD names.
pub const RADEON_PATTERN: &'static str = "(?i)with Radeon .*? Graphics";

pub const FPU_PATTERN: &'static str = "FPU.*?";

pub const CHIP_REVISION_PATTERN: &'static str = "Chip Revision.*?";

/// A run of white space.
pub const SPACES_PATTERN: &'static str = "\\s+";

/// The patterns above: all of them compile.
pub open spec fn is_known_pattern(p: Seq<char>) -> bool {
    p == CSI_PATTERN@ || p == CORE_COUNT_PATTERN@ || p == COMPUTE_CORES_PATTERN@ || p
        == AUTHENTIC_AMD_PATTERN@ || p == RADEON_PATTERN@ || p == FPU_PATTERN@ || p
        == CHIP_REVISION_PATTERN@ || p == SPACES_PATTERN@
}

/// What `Regex::replace_all` makes of `text` with the compiled `pattern` and
/// the literal replacement `rep`.
pub uninterp spec fn regex_replaced(pattern: Seq<char>, text: Seq<char>, rep: Seq<char>) -> Seq<
    char,
>;

/// Relies on `regex::Regex::new` and `Regex::replace_all`: every leftmost
/// match, searched again after the end of the last one, is replaced by `rep`
/// (taken literally here: none of the replacements holds `$`). For the CSI
/// pattern and an empty replacement that is `strip_csi`.
#[verifier::external_body]
pub(crate) fn regex_replace_all(pattern: &str, text: &str, rep: &str) -> (r: String)
    requires
        is_known_pattern(pattern@),
        rep@ == ""@ || rep@ == " "@,
    ensures
        r@ == regex_replaced(pattern@, text@, rep@),
        pattern@ == CSI_PATTERN@ && rep@ == ""@ ==> r@ == strip_csi(text@),
{
    regex::Regex::new(pattern).unwrap().replace_all(text, rep).into_owned()
}

} // verus!
