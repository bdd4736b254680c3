//! The ways a command can fail.
use vstd::prelude::*;

verus! {

/// A failure, tagged by kind. Only the top-level dispatcher decides how it is
/// shown; `Abort` is a normal way to stop and is shown as nothing.
#[derive(Debug, Clone, PartialEq, Eq)]
pub enum Error {
    /// The release catalog or an asset transfer failed.
    Network(String),
    /// A file-system or process failure, with the path concerned when known.
    Io { source: String, context: Option<String> },
    /// A condition described in words.
    Descriptive(String),
    /// The user declined a prompt or cancelled it.
    Abort,
    /// No release, or no installed version, carries the requested tag.
    NotFound(String),
    /// The downloaded byte count differs from the size the catalog declared.
    SizeMismatch { expected: u64, actual: u64 },
}

/// The text shown when no version is installed.
pub open spec fn nothing_installed_text() -> Seq<char> {
    "You don't have any known versions installed.\nUse the install command to install a version."@
}

/// The error returned when no version is installed.
pub fn nothing_installed() -> (e: Error)
    ensures
        e matches Error::Descriptive(m) && m@ == nothing_installed_text(),
{
    Error::Descriptive(
        String::from_str(
            "You don't have any known versions installed.\nUse the install command to install a version.",
        ),
    )
}

} // verus!
