//! Managing local installations of versioned application bundles: listing the
//! installed versions, ordering version tags, and planning the installs,
//! removals and updates that bring the install directory to the state asked
//! for. The plans are performed by the caller, step by step, under the
//! library's verdict on each step.
use vstd::prelude::*;

pub mod cli;
pub mod desktop;
pub mod error;
pub mod inventory;
pub mod layout;
pub mod plan;
pub mod release;
pub mod removal;
pub mod text;
pub mod update;
pub mod version;

verus! {

} // verus!
