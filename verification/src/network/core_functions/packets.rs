use vstd::prelude::*;
use vstd::string::*;
use crate::error::SimError;
use crate::hardware::constants::DATA_BYTE_PER_FLIT;
use crate::network::vid::{get_vid, VidTable};
use crate::utils::{ceil_div, div_ceil};

verus! {

/// A message of the routing layer on its way between two nodes: the encoded
/// routing packet with the names of the nodes it travels between.
#[derive(Debug)]
pub struct Packet {
    pub data: Vec<u8>,
    pub dest_id: String,
    pub prev_id: String,
    pub next_id: String,
    pub source_id: String,
    pub packet_id: u32,
    pub channel_id: u8,
}

pub struct PacketView {
    pub data: Seq<u8>,
    pub dest_id: Seq<char>,
    pub prev_id: Seq<char>,
    pub next_id: Seq<char>,
    pub source_id: Seq<char>,
    pub packet_id: u32,
    pub channel_id: u8,
}

impl View for Packet {
    type V = PacketView;

    open spec fn view(&self) -> PacketView {
        PacketView {
            data: self.data@,
            dest_id: self.dest_id@,
            prev_id: self.prev_id@,
            next_id: self.next_id@,
            source_id: self.source_id@,
            packet_id: self.packet_id,
            channel_id: self.channel_id,
        }
    }
}

impl Clone for Packet {
    fn clone(&self) -> (r: Self)
        ensures
            r@ == self@,
    {
        Packet {
            data: self.data.clone(),
            dest_id: self.dest_id.clone(),
            prev_id: self.prev_id.clone(),
            next_id: self.next_id.clone(),
            source_id: self.source_id.clone(),
            packet_id: self.packet_id,
            channel_id: self.channel_id,
        }
    }
}

impl PacketView {
    /// Number of flits that carry the packet.
    pub open spec fn flits_len(self) -> int {
        ceil_div(self.data.len() as int, DATA_BYTE_PER_FLIT as int)
    }
}

impl Packet {
    pub fn get_flits_len(&self) -> (n: u32)
        requires
            self.data@.len() <= u32::MAX,
        ensures
            n == self@.flits_len(),
    {
        div_ceil(self.data.len() as u32, DATA_BYTE_PER_FLIT)
    }
}

/// A message that a node's user hands to the network.
#[derive(Debug)]
pub struct InjectionPacket {
    pub message: String,
    pub dest_id: String,
    pub source_id: String,
}

pub struct InjectionPacketView {
    pub message: Seq<char>,
    pub dest_id: Seq<char>,
    pub source_id: Seq<char>,
}

impl View for InjectionPacket {
    type V = InjectionPacketView;

    open spec fn view(&self) -> InjectionPacketView {
        InjectionPacketView {
            message: self.message@,
            dest_id: self.dest_id@,
            source_id: self.source_id@,
        }
    }
}

impl Clone for InjectionPacket {
    fn clone(&self) -> (r: Self)
        ensures
            r@ == self@,
    {
        InjectionPacket {
            message: self.message.clone(),
            dest_id: self.dest_id.clone(),
            source_id: self.source_id.clone(),
        }
    }
}

/// A packet of the routing layer: a message, the routing ids of the nodes it
/// travels between, its number at the node that made it, and its channel.
#[derive(Debug, PartialEq, Eq)]
pub struct RoutingPacket {
    pub message: String,
    pub dest_id: u32,
    pub prev_id: u32,
    pub next_id: u32,
    pub source_id: u32,
    pub packet_id: u32,
    pub channel_id: u8,
}

pub struct RoutingPacketView {
    pub message: Seq<char>,
    pub dest_id: u32,
    pub prev_id: u32,
    pub next_id: u32,
    pub source_id: u32,
    pub packet_id: u32,
    pub channel_id: u8,
}

impl View for RoutingPacket {
    type V = RoutingPacketView;

    open spec fn view(&self) -> RoutingPacketView {
        RoutingPacketView {
            message: self.message@,
            dest_id: self.dest_id,
            prev_id: self.prev_id,
            next_id: self.next_id,
            source_id: self.source_id,
            packet_id: self.packet_id,
            channel_id: self.channel_id,
        }
    }
}

impl DeepView for RoutingPacket {
    type V = RoutingPacketView;

    open spec fn deep_view(&self) -> RoutingPacketView {
        self@
    }
}

impl Clone for RoutingPacket {
    fn clone(&self) -> (r: Self)
        ensures
            r@ == self@,
    {
        RoutingPacket {
            message: self.message.clone(),
            dest_id: self.dest_id,
            prev_id: self.prev_id,
            next_id: self.next_id,
            source_id: self.source_id,
            packet_id: self.packet_id,
            channel_id: self.channel_id,
        }
    }
}

/// The bytes that `bincode::serialize` makes of a routing packet's fields, in
/// the order message, destination, last hop, next hop, source, number,
/// channel.
pub uninterp spec fn bincode_image(
    message: Seq<char>,
    dest_id: u32,
    prev_id: u32,
    next_id: u32,
    source_id: u32,
    packet_id: u32,
    channel_id: u8,
) -> Seq<u8>;

/// The fields that `bincode::deserialize` reads from bytes, in the order of
/// `bincode_image`; `None` where it fails.
pub uninterp spec fn bincode_fields(data: Seq<u8>) -> Option<
    (Seq<char>, u32, u32, u32, u32, u32, u8),
>;

/// Encodes the fields of a routing packet with `bincode::serialize`, as one
/// tuple. The contract claims that the call succeeds, as writing text and
/// whole numbers of fixed width into a vector without size limit does, and
/// that the bytes are a function of the fields, which it names
/// `bincode_image`.
#[verifier::external_body]
fn bincode_serialize(
    message: &str,
    dest_id: u32,
    prev_id: u32,
    next_id: u32,
    source_id: u32,
    packet_id: u32,
    channel_id: u8,
) -> (r: Option<Vec<u8>>)
    ensures
        match r {
            Some(v) => v@ == bincode_image(
                message@,
                dest_id,
                prev_id,
                next_id,
                source_id,
                packet_id,
                channel_id,
            ),
            None => false,
        },
{
    let fields = (message, dest_id, prev_id, next_id, source_id, packet_id, channel_id);
    match bincode::serialize(&fields) {
        Ok(v) => Some(v),
        Err(_) => None,
    }
}

/// Decodes the fields of a routing packet with `bincode::deserialize`, as
/// one tuple. The contract claims only that the outcome is a function of the
/// bytes, which it names `bincode_fields`.
#[verifier::external_body]
fn bincode_deserialize(data: &[u8]) -> (r: Option<(String, u32, u32, u32, u32, u32, u8)>)
    ensures
        match r {
            Some(t) => bincode_fields(data@) == Some((t.0@, t.1, t.2, t.3, t.4, t.5, t.6)),
            None => bincode_fields(data@) is None,
        },
{
    match bincode::deserialize::<(String, u32, u32, u32, u32, u32, u8)>(data) {
        Ok(t) => Some(t),
        Err(_) => None,
    }
}

impl RoutingPacketView {
    /// The encoded packet.
    pub open spec fn encoded(self) -> Seq<u8> {
        bincode_image(
            self.message,
            self.dest_id,
            self.prev_id,
            self.next_id,
            self.source_id,
            self.packet_id,
            self.channel_id,
        )
    }

    /// The packet that `data` encodes, where it encodes one.
    pub open spec fn decoded(data: Seq<u8>) -> Option<RoutingPacketView> {
        match bincode_fields(data) {
            Some(t) => Some(
                RoutingPacketView {
                    message: t.0,
                    dest_id: t.1,
                    prev_id: t.2,
                    next_id: t.3,
                    source_id: t.4,
                    packet_id: t.5,
                    channel_id: t.6,
                },
            ),
            None => None,
        }
    }

    /// The routing packet that a node reads from a packet that arrived: its
    /// payload decoded, with the hop that the packet itself names.
    pub open spec fn from_general(gp: PacketView, vids: Map<Seq<char>, u32>) -> Result<
        RoutingPacketView,
        SimError,
    > {
        match Self::decoded(gp.data) {
            None => Err(SimError::Decode),
            Some(p) => if vids.contains_key(gp.prev_id) && vids.contains_key(gp.next_id) {
                Ok(RoutingPacketView { prev_id: vids[gp.prev_id], next_id: vids[gp.next_id], ..p })
            } else {
                Err(SimError::UnknownNode)
            },
        }
    }
}

impl RoutingPacket {
    /// Encodes the packet for the payload of a `Packet`.
    pub fn encode(&self) -> (r: Vec<u8>)
        ensures
            r@ == self@.encoded(),
    {
        bincode_serialize(
            self.message.as_str(),
            self.dest_id,
            self.prev_id,
            self.next_id,
            self.source_id,
            self.packet_id,
            self.channel_id,
        ).unwrap()
    }

    /// Decodes the payload of a `Packet`.
    pub fn decode(data: &Vec<u8>) -> (r: Option<RoutingPacket>)
        ensures
            match r {
                Some(p) => RoutingPacketView::decoded(data@) == Some(p@),
                None => RoutingPacketView::decoded(data@) is None,
            },
    {
        match bincode_deserialize(data.as_slice()) {
            Some(t) => Some(
                RoutingPacket {
                    message: t.0,
                    dest_id: t.1,
                    prev_id: t.2,
                    next_id: t.3,
                    source_id: t.4,
                    packet_id: t.5,
                    channel_id: t.6,
                },
            ),
            None => None,
        }
    }

    /// Reads the routing packet from a packet that arrived. The last and the
    /// next hop are those that the packet itself names. Fails where the
    /// payload encodes no routing packet, or a hop has no routing id.
    pub fn from_general(gp: &Packet, table: &VidTable) -> (r: Result<RoutingPacket, SimError>)
        requires
            table.wf(),
        ensures
            match r {
                Ok(p) => RoutingPacketView::from_general(gp@, table.vids()) == Ok::<
                    RoutingPacketView,
                    SimError,
                >(p@),
                Err(e) => RoutingPacketView::from_general(gp@, table.vids()) == Err::<
                    RoutingPacketView,
                    SimError,
                >(e),
            },
    {
        match Self::decode(&gp.data) {
            None => Err(SimError::Decode),
            Some(p) => {
                let mut dp = p;
                match (get_vid(table, gp.prev_id.as_str()), get_vid(table, gp.next_id.as_str())) {
                    (Some(prev), Some(next)) => {
                        dp.prev_id = prev;
                        dp.next_id = next;
                        Ok(dp)
                    },
                    _ => Err(SimError::UnknownNode),
                }
            },
        }
    }
}

} // verus!
