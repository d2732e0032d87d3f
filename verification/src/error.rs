use vstd::prelude::*;
use vstd::string::*;

verus! {

/// What stops a simulation: a violation of the protocol's own rules, seen in
/// the data that a node was handed.
#[derive(Debug, Clone, Copy, PartialEq, Eq, Structural)]
pub enum SimError {
    /// An operation needs a flit that holds something, and the flit is empty.
    EmptyFlit,
    /// A node name or routing id is not in the id table.
    UnknownNode,
    /// A channel number is not below the number of channels.
    BadChannel,
    /// Neither the routing table nor a parent gives a next hop.
    NoRoute,
    /// A control message arrived at a node that the protocol never sends it to.
    UnexpectedMessage,
    /// A reconnect request or a parent offer without its number.
    MalformedMessage,
    /// A parent offer whose root is larger than the node's own.
    RootOrder,
    /// An encoded routing packet is too long to be cut into flits.
    Encode,
    /// The payload of a packet is no encoded routing packet.
    Decode,
    /// A node is neither coordinator nor router.
    UnknownNodeType,
    /// More coordinators than channels.
    TooManyCoordinators,
    /// An acknowledgement that answers no flit that the node has pending.
    AckMismatch,
    /// An acknowledgement where a flit with payload belongs.
    UnexpectedAck,
    /// A switching mode that is neither cut-through nor store-and-forward.
    InvalidSwitching,
    /// A routing kind that names no routing core.
    UnknownRouting,
    /// A packet that the log has no entry for.
    UnknownPacket,
    /// A delivered packet whose log entry lacks a cycle, or received before sent.
    InconsistentLog,
}

impl SimError {
    /// A line for the diagnostic that ends the run.
    pub fn describe(&self) -> (s: String)
        ensures
            s@ == self.text(),
    {
        match self {
            SimError::EmptyFlit => String::from_str("flit is empty"),
            SimError::UnknownNode => String::from_str("node is not in the id table"),
            SimError::BadChannel => String::from_str("channel is out of range"),
            SimError::NoRoute => String::from_str("parent_id is not set"),
            SimError::UnexpectedMessage => String::from_str("control message in a direction that the protocol excludes"),
            SimError::MalformedMessage => String::from_str("control message without its number"),
            SimError::RootOrder => String::from_str("offered root is larger than the current root"),
            SimError::Encode => String::from_str("encoded packet is too long"),
            SimError::Decode => String::from_str("error occured while deserializing a packet"),
            SimError::UnknownNodeType => String::from_str("unknown node type"),
            SimError::TooManyCoordinators => String::from_str("more coordinators than channels"),
            SimError::AckMismatch => String::from_str("receive_ack: ack is not matched"),
            SimError::UnexpectedAck => String::from_str("ack_gen: flit is ack"),
            SimError::InvalidSwitching => String::from_str("not a valid switching type"),
            SimError::UnknownRouting => String::from_str("invalid routing function kind"),
            SimError::UnknownPacket => String::from_str("specified packet not found"),
            SimError::InconsistentLog => String::from_str("delivered packet without consistent cycles"),
        }
    }

    /// The line that tells of the error in the diagnostic that ends the run.
    pub open spec fn text(self) -> Seq<char> {
        match self {
            SimError::EmptyFlit => "flit is empty"@,
            SimError::UnknownNode => "node is not in the id table"@,
            SimError::BadChannel => "channel is out of range"@,
            SimError::NoRoute => "parent_id is not set"@,
            SimError::UnexpectedMessage => "control message in a direction that the protocol excludes"@,
            SimError::MalformedMessage => "control message without its number"@,
            SimError::RootOrder => "offered root is larger than the current root"@,
            SimError::Encode => "encoded packet is too long"@,
            SimError::Decode => "error occured while deserializing a packet"@,
            SimError::UnknownNodeType => "unknown node type"@,
            SimError::TooManyCoordinators => "more coordinators than channels"@,
            SimError::AckMismatch => "receive_ack: ack is not matched"@,
            SimError::UnexpectedAck => "ack_gen: flit is ack"@,
            SimError::InvalidSwitching => "not a valid switching type"@,
            SimError::UnknownRouting => "invalid routing function kind"@,
            SimError::UnknownPacket => "specified packet not found"@,
            SimError::InconsistentLog => "delivered packet without consistent cycles"@,
        }
    }
}

} // verus!
