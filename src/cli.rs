//! The command-line surface, as plain values.
use crate::error::Error;
use vstd::prelude::*;

verus! {

/// The parsed command line.
#[derive(Debug, Clone, PartialEq, Eq)]
pub struct Cli {
    pub command: Commands,
    /// The base directory to install the versions in.
    pub install_dir: Option<String>,
}

/// The subcommands.
#[derive(Debug, Clone, PartialEq, Eq)]
pub enum Commands {
    /// Install a version, or one chosen from the catalog.
    Install { osu_version: Option<String> },
    /// Uninstall a version, or one chosen from those installed.
    Remove { osu_version: Option<String> },
    /// Update to the latest version, asking first unless `no_confirm`.
    Update { no_confirm: bool },
}

pub open spec fn missing_dir_text() -> Seq<char> {
    "The specified install directory does not exist."@
}

pub open spec fn not_a_dir_text() -> Seq<char> {
    "The specified install directory is not a directory."@
}

/// An install directory given on the command line must exist and be a
/// directory.
pub fn check_install_dir(exists: bool, is_dir: bool) -> (r: Result<(), Error>)
    ensures
        !exists ==> (r matches Err(Error::Descriptive(m)) && m@ == missing_dir_text()),
        exists && !is_dir ==> (r matches Err(Error::Descriptive(m)) && m@ == not_a_dir_text()),
        exists && is_dir ==> r is Ok,
{
    if !exists {
        Err(Error::Descriptive(String::from_str("The specified install directory does not exist.")))
    } else if !is_dir {
        Err(
            Error::Descriptive(
                String::from_str("The specified install directory is not a directory."),
            ),
        )
    } else {
        Ok(())
    }
}

/// Going on after a confirmation prompt: a declined prompt aborts.
pub fn proceed_if_confirmed(confirmed: bool) -> (r: Result<(), Error>)
    ensures
        confirmed ==> r is Ok,
        !confirmed ==> r == Err::<(), Error>(Error::Abort),
{
    if confirmed {
        Ok(())
    } else {
        Err(Error::Abort)
    }
}

/// Whether the update asks for confirmation before it installs.
pub fn update_asks_confirmation(no_confirm: bool) -> (r: bool)
    ensures
        r == !no_confirm,
{
    !no_confirm
}

} // verus!
