use vstd::prelude::*;
use std::collections::HashMap;
use crate::sim::rec::{Neighbors, Update};

verus! {

/// A node of the configuration.
#[derive(Debug)]
pub struct NodeInfo {
    pub node_id: String,
    pub node_type: String,
}

/// A message of the configuration, with the cycle in which its source sends
/// it.
#[derive(Debug)]
pub struct PacketInfo {
    pub cycle_num: u32,
    pub src_id: String,
    pub dest_id: String,
    pub msg: String,
}

/// The configuration of a run.
#[derive(Debug)]
pub struct InputFile {
    pub node_num: u32,
    pub total_cycles: u32,
    pub channel_num: u8,
    pub switching: String,
    pub nodes: Vec<NodeInfo>,
    pub packets: Vec<PacketInfo>,
    pub neighbors: Neighbors,
    pub routing: Option<String>,
    pub rec_table: Option<HashMap<u32, Update>>,
    /// The cycles whose packets are counted: from the first number up to,
    /// but not including, the second.
    pub log_range: Option<Vec<u32>>,
}

} // verus!
