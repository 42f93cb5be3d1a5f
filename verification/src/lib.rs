//! Dinotty's rules, verified: shell history and suggestions, shell
//! profiles, tabs and panes and their saved worksite, the desktop server's
//! command line and addresses, and the relay with its tunnel protocol.
use vstd::prelude::*;

pub mod text;
pub mod history;
pub mod shell_profiles;
pub mod wire;
pub mod relay;
pub mod server;
pub mod restore_state;
pub mod tabs;
pub mod ids;
pub mod clock;
pub mod outbound;

verus! {

} // verus!
