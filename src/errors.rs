//! The errors that end a run.

use vstd::prelude::*;

verus! {

/// Why a run stopped.
#[derive(Debug, Clone, PartialEq, Eq)]
pub enum FreshfetchError {
    /// The embedded template environment failed: a namespace write, a
    /// template that did not run, or a missing output variable.
    Lua(String),
    /// A command could not be run: the command line and the details.
    Command(String, String),
    /// A file could not be read: its path and the details.
    Io(String, String),
    /// Any other failure.
    General(String),
    /// The operating system's identifier matched no known family.
    PlatformUnsupported(String),
}


/// The text shown to the user for `e`.
pub open spec fn error_message(e: FreshfetchError) -> Seq<char> {
    match e {
        FreshfetchError::Lua(d) => "A Lua error occurred. Details:\n"@ + d@,
        FreshfetchError::Command(c, d) => "An error occurred while executing \""@ + c@
            + "\". Details:\n"@ + d@,
        FreshfetchError::Io(p, d) => "An I/O error occurred while trying to read from \""@ + p@
            + "\". Details:\n"@ + d@,
        FreshfetchError::General(d) => "An error occurred: "@ + d@,
        FreshfetchError::PlatformUnsupported(n) => "Unexpected OS \""@ + n@
            + "\". Support needed."@,
    }
}

impl FreshfetchError {
    /// The message that names what failed.
    pub fn message(&self) -> (r: String)
        ensures
            r@ == error_message(*self),
    {
        match self {
            FreshfetchError::Lua(d) => {
                let mut m = String::from_str("A Lua error occurred. Details:\n");
                m.append(d.as_str());
                m
            },
            FreshfetchError::Command(c, d) => {
                let mut m = String::from_str("An error occurred while executing \"");
                m.append(c.as_str());
                m.append("\". Details:\n");
                m.append(d.as_str());
                m
            },
            FreshfetchError::Io(p, d) => {
                let mut m = String::from_str("An I/O error occurred while trying to read from \"");
                m.append(p.as_str());
                m.append("\". Details:\n");
                m.append(d.as_str());
                m
            },
            FreshfetchError::General(d) => {
                let mut m = String::from_str("An error occurred: ");
                m.append(d.as_str());
                m
            },
            FreshfetchError::PlatformUnsupported(n) => {
                let mut m = String::from_str("Unexpected OS \"");
                m.append(n.as_str());
                m.append("\". Support needed.");
                m
            },
        }
    }
}

} // verus!
