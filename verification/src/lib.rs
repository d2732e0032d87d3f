//! Cycle-driven simulator for a reconfigurable network-on-chip: the per-node
//! protocol stack, the routing cores and the global scheduler, with their
//! behaviour stated in contracts and proved.

pub mod error;
pub mod file;
pub mod utils;
mod random;
pub mod str_map;
pub mod log;
pub mod hardware;
pub mod network;
pub mod sim;
