use vstd::prelude::*;
use vstd::string::*;
use std::collections::HashMap;
use crate::error::SimError;
use crate::hardware::constants::BROADCAST_ID;
use crate::random::{random_in_range, random_picks, random_ratio, random_u32};
use crate::network::core_functions::message::{classify_join, join_kind, MessageKind};
use crate::network::core_functions::packets::{
    InjectionPacket, Packet, PacketView, RoutingPacket, RoutingPacketView,
};
use crate::network::flit::{Flit, FlitView};
use crate::network::vid::{get_pid, get_vid, next_coordinator, VidTable};
use crate::sim::node_type::{NodeType, NodeTypeView};

verus! {

/// The channel number of a parent request that asks for any channel.
pub const ANY_CHANNEL: u8 = 0xff;

/// The routing tables of the channels, as maps.
pub open spec fn table_maps(tables: Seq<HashMap<u32, u32>>) -> Seq<Map<u32, u32>> {
    Seq::new(tables.len(), |i: int| tables[i]@)
}

/// The channels that the node has joined (`joined`) or not (`!joined`), in
/// rising order.
pub open spec fn channels_where(flags: Seq<bool>, joined: bool) -> Seq<u8>
    decreases flags.len(),
{
    if flags.len() == 0 {
        Seq::empty()
    } else {
        let rest = channels_where(flags.drop_last(), joined);
        if flags.last() == joined {
            rest.push((flags.len() - 1) as u8)
        } else {
            rest
        }
    }
}

/// Whether the core of a node can be made while the next coordinator id is
/// `cnt`: a coordinator needs an id from 1 up to the number of channels.
pub open spec fn can_make(node_type: NodeTypeView, channel_num: u8, cnt: u32) -> bool {
    node_type is Coordinator ==> 1 <= cnt <= channel_num
}

/// The next coordinator id after the core of a node was made, or could not
/// be made: a coordinator takes an id, any other node leaves it.
pub open spec fn counter_after(node_type: NodeTypeView, channel_num: u8, cnt: u32) -> u32 {
    if node_type is Coordinator {
        next_coordinator(cnt, channel_num)
    } else {
        cnt
    }
}

/// The channels on which the node has no parent, in rising order.
pub open spec fn orphaned_channels(parents: Seq<u32>) -> Seq<u8>
    decreases parents.len(),
{
    if parents.len() == 0 {
        Seq::empty()
    } else {
        let rest = orphaned_channels(parents.drop_last());
        if parents.last() == 0 {
            rest.push((parents.len() - 1) as u8)
        } else {
            rest
        }
    }
}

/// The number that follows `n` where numbers start again after the largest.
pub open spec fn next_number(n: u32) -> u32 {
    if n == u32::MAX {
        0
    } else {
        (n + 1) as u32
    }
}

fn following(n: u32) -> (r: u32)
    ensures
        r == next_number(n),
{
    if n == u32::MAX {
        0
    } else {
        n + 1
    }
}

/// A routing core of the multi-tree kind: one spanning tree for each
/// channel, rooted at the coordinator whose id is the channel's number plus
/// one.
#[derive(Debug)]
pub struct MultiTreeFunction {
    pub id: u32,
    pub channel_num: u8,
    pub send_packet_buffer: Vec<RoutingPacket>,
    pub received_packet_buffer: Vec<RoutingPacket>,
    pub network_joined: Vec<bool>,
    pub node_type: NodeType,
    pub tables: Vec<HashMap<u32, u32>>,
    pub packet_num_cnt: u32,
    pub parent_ids: Vec<u32>,
    pub channel_history: u8,
}

/// The state of a multi-tree core. A parent id of 0 means that the channel
/// has no parent.
pub struct TreeView {
    pub id: u32,
    pub channel_num: u8,
    pub send: Seq<RoutingPacketView>,
    pub received: Seq<RoutingPacketView>,
    pub joined: Seq<bool>,
    pub node_type: NodeTypeView,
    pub tables: Seq<Map<u32, u32>>,
    pub packet_num_cnt: u32,
    pub parent_ids: Seq<u32>,
    pub channel_history: u8,
}

impl View for MultiTreeFunction {
    type V = TreeView;

    open spec fn view(&self) -> TreeView {
        TreeView {
            id: self.id,
            channel_num: self.channel_num,
            send: self.send_packet_buffer.deep_view(),
            received: self.received_packet_buffer.deep_view(),
            joined: self.network_joined@,
            node_type: self.node_type@,
            tables: table_maps(self.tables@),
            packet_num_cnt: self.packet_num_cnt,
            parent_ids: self.parent_ids@,
            channel_history: self.channel_history,
        }
    }
}

impl TreeView {
    /// There is a channel, each channel has its entry in each list, and a
    /// coordinator's id is the number of a channel plus one.
    pub open spec fn wf(self) -> bool {
        &&& self.channel_num > 0
        &&& self.joined.len() == self.channel_num
        &&& self.tables.len() == self.channel_num
        &&& self.parent_ids.len() == self.channel_num
        &&& self.channel_history < self.channel_num
        &&& (self.node_type is Coordinator ==> 1 <= self.id <= self.channel_num)
    }

    /// The core as it starts: a coordinator has joined its own channel, where
    /// it is its own parent; any other node asks for a parent on any channel.
    pub open spec fn initial(node_type: NodeTypeView, channel_num: u8, id: u32) -> TreeView {
        let n = channel_num as nat;
        let coordinator = node_type is Coordinator;
        TreeView {
            id,
            channel_num,
            send: if coordinator {
                Seq::empty()
            } else {
                seq![
                    RoutingPacketView {
                        message: "preq"@,
                        packet_id: u32::MAX,
                        dest_id: BROADCAST_ID,
                        source_id: id,
                        prev_id: id,
                        channel_id: ANY_CHANNEL,
                        next_id: BROADCAST_ID,
                    },
                ]
            },
            received: Seq::empty(),
            joined: Seq::new(n, |i: int| coordinator && i == id - 1),
            node_type,
            tables: Seq::new(n, |i: int| Map::<u32, u32>::empty()),
            packet_num_cnt: 0,
            parent_ids: Seq::new(
                n,
                |i: int|
                    if coordinator && i == id - 1 {
                        id
                    } else {
                        0u32
                    },
            ),
            channel_history: (channel_num - 1) as u8,
        }
    }

    pub open spec fn is_joined(self) -> bool {
        forall|c: int| 0 <= c < self.joined.len() ==> self.joined[c]
    }

    /// The parent of each channel, where it has one.
    pub open spec fn parents(self) -> Seq<Option<u32>> {
        Seq::new(
            self.parent_ids.len(),
            |c: int|
                if self.parent_ids[c] == 0 {
                    None
                } else {
                    Some(self.parent_ids[c])
                },
        )
    }

    /// A new packet from this node, which takes the next packet number.
    pub open spec fn gen(
        self,
        src_id: u32,
        dest_id: u32,
        next_id: u32,
        channel_id: u8,
        message: Seq<char>,
    ) -> (TreeView, RoutingPacketView) {
        (
            TreeView { packet_num_cnt: next_number(self.packet_num_cnt), ..self },
            RoutingPacketView {
                message,
                packet_id: self.packet_num_cnt,
                dest_id,
                source_id: src_id,
                prev_id: self.id,
                channel_id,
                next_id,
            },
        )
    }

    /// The next hop towards `dest_id` on a channel: the routing table's
    /// entry; without one, every neighbour for a broadcast, else the parent.
    /// A node without entry and parent has no next hop.
    pub open spec fn next_hop(self, dest_id: u32, channel_id: u8) -> Option<u32>
        recommends
            channel_id < self.channel_num,
    {
        let c = channel_id as int;
        if self.tables[c].contains_key(dest_id) {
            Some(self.tables[c][dest_id])
        } else if dest_id == BROADCAST_ID {
            Some(BROADCAST_ID)
        } else if self.parent_ids[c] == 0 {
            None
        } else {
            Some(self.parent_ids[c])
        }
    }

    /// The channel that the next packet of this node's own takes: the
    /// channels take turns.
    pub open spec fn next_channel(self) -> u8 {
        ((self.channel_history + 1) % (self.channel_num as int)) as u8
    }

    /// The core with `dest_id` reached through `next_id` on a channel.
    pub open spec fn with_route(self, dest_id: u32, next_id: u32, channel_id: u8) -> TreeView {
        TreeView {
            tables: self.tables.update(
                channel_id as int,
                self.tables[channel_id as int].insert(dest_id, next_id),
            ),
            ..self
        }
    }

    /// A packet for another node is passed on, as a new packet of this
    /// node, to the routing table's entry for its destination or else to the
    /// parent.
    pub open spec fn route(self, p: RoutingPacketView) -> (TreeView, Seq<RoutingPacketView>)
        recommends
            p.channel_id < self.channel_num,
    {
        let c = p.channel_id as int;
        let next_id = if self.tables[c].contains_key(p.dest_id) {
            self.tables[c][p.dest_id]
        } else {
            self.parent_ids[c]
        };
        let (s, q) = self.gen(p.source_id, p.dest_id, next_id, p.channel_id, p.message);
        (s, seq![q])
    }

    /// A user's message enters the core: it takes the channel whose turn it
    /// is and goes to the next hop towards its destination. A message
    /// without next hop is refused. The packet number advances twice.
    pub open spec fn push_new(self, message: Seq<char>, dest_vid: u32) -> (TreeView, Option<SimError>) {
        let channel_id = self.next_channel();
        match self.next_hop(dest_vid, channel_id) {
            None => (self, Some(SimError::NoRoute)),
            Some(next) => {
                let s0 = TreeView { channel_history: channel_id, ..self };
                let (s1, q) = s0.gen(self.id, dest_vid, next, channel_id, message);
                (
                    TreeView {
                        send: s1.send.push(q),
                        packet_num_cnt: next_number(s1.packet_num_cnt),
                        ..s1
                    },
                    None,
                )
            },
        }
    }

    /// A coordinator answers a parent request with an offer on the channel
    /// asked for, or on its own where any will do; on a channel of another
    /// coordinator only once it has joined that channel itself.
    pub open spec fn preq_at_coordinator(self, p: RoutingPacketView) -> (
        TreeView,
        Result<Seq<RoutingPacketView>, SimError>,
    ) {
        let own = (self.id - 1) as u8;
        let c = if p.channel_id == ANY_CHANNEL {
            own
        } else {
            p.channel_id
        };
        if c != own && c >= self.channel_num {
            (self, Err(SimError::BadChannel))
        } else if c != own && !self.joined[c as int] {
            (self, Ok(Seq::empty()))
        } else {
            let (s, q) = self.gen(self.id, p.source_id, p.source_id, c, "pack"@);
            (s, Ok(seq![q]))
        }
    }

    /// A router answers a parent request if it has joined the channel asked
    /// for, or any channel where any will do: it offers itself on one of the
    /// channels that it has joined, chosen by `pick`.
    pub open spec fn preq_at_router(self, p: RoutingPacketView, pick: u32) -> (
        TreeView,
        Result<Seq<RoutingPacketView>, SimError>,
    ) {
        let open_channels = channels_where(self.joined, true);
        if open_channels.len() == 0 {
            (self, Ok(Seq::empty()))
        } else if p.channel_id < self.channel_num && !self.joined[p.channel_id as int] {
            (self, Ok(Seq::empty()))
        } else {
            let c = open_channels[pick as int % open_channels.len() as int];
            let (s, q) = self.gen(self.id, p.source_id, p.source_id, c, "pack"@);
            (s, Ok(seq![q]))
        }
    }

    /// A node without parent on the channel of an offer takes the offering
    /// node as parent and asks the channel's coordinator, through it, to let
    /// it join.
    pub open spec fn pack_to_me(self, p: RoutingPacketView) -> (
        TreeView,
        Result<Seq<RoutingPacketView>, SimError>,
    ) {
        let c = p.channel_id as int;
        if p.channel_id >= self.channel_num {
            (self, Err(SimError::BadChannel))
        } else if self.parent_ids[c] != 0 {
            (self, Ok(Seq::empty()))
        } else {
            let s0 = TreeView { parent_ids: self.parent_ids.update(c, p.source_id), ..self };
            let (s, q) = s0.gen(
                self.id,
                (p.channel_id + 1) as u32,
                p.source_id,
                p.channel_id,
                "jreq"@,
            );
            (s, Ok(seq![q]))
        }
    }

    /// The coordinator of the channel notes the way back to the node that
    /// asks to join, and lets it join; a coordinator of another channel
    /// does nothing.
    pub open spec fn jreq_to_me(self, p: RoutingPacketView) -> (
        TreeView,
        Result<Seq<RoutingPacketView>, SimError>,
    ) {
        if p.channel_id + 1 != self.id {
            (self, Ok(Seq::empty()))
        } else {
            let s0 = self.with_route(p.source_id, p.prev_id, p.channel_id);
            let (s, q) = s0.gen(self.id, p.source_id, p.prev_id, p.channel_id, "jack"@);
            (s, Ok(seq![q]))
        }
    }

    /// A node that is let in has joined the channel. If it has no parent on
    /// some channel, it asks for one on such a channel, chosen by `pick`.
    pub open spec fn jack_to_me(self, p: RoutingPacketView, pick: u32) -> (
        TreeView,
        Result<Seq<RoutingPacketView>, SimError>,
    ) {
        let c = p.channel_id as int;
        if p.channel_id >= self.channel_num {
            (self, Err(SimError::BadChannel))
        } else {
            let s0 = TreeView { joined: self.joined.update(c, true), ..self };
            let orphaned = orphaned_channels(self.parent_ids);
            if orphaned.len() == 0 {
                (s0, Ok(Seq::empty()))
            } else {
                let wanted = orphaned[pick as int % orphaned.len() as int];
                let (s, q) = s0.gen(self.id, BROADCAST_ID, BROADCAST_ID, wanted, "preq"@);
                (s, Ok(seq![q]))
            }
        }
    }

    /// A packet for another node is passed on, where its channel exists.
    pub open spec fn pass_on(self, p: RoutingPacketView) -> (
        TreeView,
        Result<Seq<RoutingPacketView>, SimError>,
    ) {
        if p.channel_id >= self.channel_num {
            (self, Err(SimError::BadChannel))
        } else {
            let (s, out) = self.route(p);
            (s, Ok(out))
        }
    }

    /// What a coordinator does with a packet, by destination and message.
    /// Only a parent request may go to every node; an offer, a join request
    /// or a join answer for another node never reaches a coordinator.
    pub open spec fn at_coordinator(self, p: RoutingPacketView, pick: u32) -> (
        TreeView,
        Result<Seq<RoutingPacketView>, SimError>,
    ) {
        let kind = join_kind(p.message);
        if p.dest_id == BROADCAST_ID {
            if kind is Preq {
                self.preq_at_coordinator(p)
            } else {
                (self, Err(SimError::UnexpectedMessage))
            }
        } else if p.dest_id == self.id {
            match kind {
                MessageKind::Pack => self.pack_to_me(p),
                MessageKind::Jreq => self.jreq_to_me(p),
                MessageKind::Jack => self.jack_to_me(p, pick),
                MessageKind::User => (self, Ok(Seq::empty())),
                _ => (self, Err(SimError::UnexpectedMessage)),
            }
        } else {
            if kind is User {
                self.pass_on(p)
            } else {
                (self, Err(SimError::UnexpectedMessage))
            }
        }
    }

    /// What a router does with a packet, by destination and message. A join
    /// request on its way to the coordinator leaves the way back to its
    /// source in the routing table.
    pub open spec fn at_router(self, p: RoutingPacketView, pick: u32) -> (
        TreeView,
        Result<Seq<RoutingPacketView>, SimError>,
    ) {
        let kind = join_kind(p.message);
        if p.dest_id == BROADCAST_ID {
            if kind is Preq {
                self.preq_at_router(p, pick)
            } else {
                (self, Err(SimError::UnexpectedMessage))
            }
        } else if p.dest_id == self.id {
            match kind {
                MessageKind::Pack => self.pack_to_me(p),
                MessageKind::Jack => self.jack_to_me(p, pick),
                MessageKind::User => (self, Ok(Seq::empty())),
                _ => (self, Err(SimError::UnexpectedMessage)),
            }
        } else {
            match kind {
                MessageKind::Jreq => if p.channel_id >= self.channel_num {
                    (self, Err(SimError::BadChannel))
                } else {
                    self.with_route(p.source_id, p.prev_id, p.channel_id).pass_on(p)
                },
                MessageKind::Jack | MessageKind::User => self.pass_on(p),
                _ => (self, Err(SimError::UnexpectedMessage)),
            }
        }
    }

    /// What the core does with a packet that came in: nothing unless the
    /// packet names it, or every node, as next hop. On an error the core is
    /// as before.
    pub open spec fn process(self, p: RoutingPacketView, pick: u32) -> (
        TreeView,
        Result<Seq<RoutingPacketView>, SimError>,
    ) {
        if p.next_id != self.id && p.next_id != BROADCAST_ID {
            (self, Ok(Seq::empty()))
        } else {
            match self.node_type {
                NodeTypeView::Coordinator => self.at_coordinator(p, pick),
                NodeTypeView::Router => self.at_router(p, pick),
                _ => (self, Err(SimError::UnknownNodeType)),
            }
        }
    }

    /// Whether the node has no parent on any channel.
    pub open spec fn parentless(self) -> bool {
        forall|c: int| 0 <= c < self.parent_ids.len() ==> self.parent_ids[c] == 0
    }

    /// With `emit`, a node that has yet to join a channel asks for a
    /// parent: on any channel if it has no parent at all, else on a channel
    /// that it has not joined, chosen by `pick`.
    pub open spec fn ask_for_parent(self, emit: bool, pick: u32) -> TreeView {
        let missing = channels_where(self.joined, false);
        if !emit || missing.len() == 0 {
            self
        } else {
            let c = if self.parentless() {
                ANY_CHANNEL
            } else {
                missing[pick as int % missing.len() as int]
            };
            let (s, q) = self.gen(self.id, BROADCAST_ID, BROADCAST_ID, c, "preq"@);
            TreeView { send: s.send.push(q), ..s }
        }
    }

    /// The number that decides the `i`-th choice.
    pub open spec fn pick_at(picks: Seq<u32>, i: int) -> u32 {
        if 0 <= i < picks.len() {
            picks[i]
        } else {
            0
        }
    }

    /// The packets that came in are worked off in their order, from the
    /// `i`-th choice on; what they give rise to is queued for sending. The
    /// first error ends the work, and the packets behind it stay.
    pub open spec fn drain(self, picks: Seq<u32>, i: int) -> (TreeView, Option<SimError>)
        decreases self.received.len(),
    {
        if self.received.len() == 0 {
            (self, None)
        } else {
            let rest = self.received.subrange(1, self.received.len() as int);
            let (s, r) = (TreeView { received: rest, ..self }).process(
                self.received[0],
                Self::pick_at(picks, i),
            );
            match r {
                Err(e) => (TreeView { received: rest, ..s }, Some(e)),
                Ok(out) => (TreeView { received: rest, send: s.send + out, ..s }).drain(
                    picks,
                    i + 1,
                ),
            }
        }
    }

    /// One cycle of the core.
    pub open spec fn update(self, emit: bool, pick: u32, picks: Seq<u32>) -> (
        TreeView,
        Option<SimError>,
    ) {
        self.ask_for_parent(emit, pick).drain(picks, 0)
    }

    /// The flit of a packet that is cut through this node, as it leaves: its
    /// last hop is this node, its next hop the next one towards its
    /// destination. The way back to the flit's source is noted.
    pub open spec fn forward(
        self,
        f: FlitView,
        vids: Map<Seq<char>, u32>,
        pids: Map<u32, Seq<char>>,
    ) -> (TreeView, Result<FlitView, SimError>) {
        if f is Empty {
            (self, Err(SimError::EmptyFlit))
        } else if f.channel_id().unwrap() >= self.channel_num {
            (self, Err(SimError::BadChannel))
        } else if !(vids.contains_key(f.dest_id().unwrap()) && vids.contains_key(
            f.source_id().unwrap(),
        ) && vids.contains_key(f.prev_id().unwrap())) {
            (self, Err(SimError::UnknownNode))
        } else {
            let c = f.channel_id().unwrap();
            match self.next_hop(vids[f.dest_id().unwrap()], c) {
                None => (self, Err(SimError::NoRoute)),
                Some(next) => if !pids.contains_key(next) {
                    (self, Err(SimError::UnknownNode))
                } else {
                    (
                        self.with_route(vids[f.source_id().unwrap()], vids[f.prev_id().unwrap()], c),
                        Ok(f.with_prev_id(f.next_id().unwrap()).with_next_id(pids[next])),
                    )
                },
            }
        }
    }

    /// What the core hands to the network from the head of its queue: the
    /// packet encoded, with the names of the nodes on its way.
    pub open spec fn outgoing(self, pids: Map<u32, Seq<char>>) -> Result<PacketView, SimError>
        recommends
            self.send.len() > 0,
    {
        let p = self.send[0];
        if pids.contains_key(self.id) && pids.contains_key(p.dest_id) && pids.contains_key(
            p.source_id,
        ) && pids.contains_key(p.next_id) {
            Ok(
                PacketView {
                    data: p.encoded(),
                    packet_id: p.packet_id,
                    dest_id: pids[p.dest_id],
                    source_id: pids[p.source_id],
                    next_id: pids[p.next_id],
                    prev_id: pids[self.id],
                    channel_id: p.channel_id,
                },
            )
        } else {
            Err(SimError::UnknownNode)
        }
    }
}

/// The outcome of a step as a mathematical value.
pub open spec fn result_view(r: Result<Vec<RoutingPacket>, SimError>) -> Result<
    Seq<RoutingPacketView>,
    SimError,
> {
    match r {
        Ok(v) => Ok(v.deep_view()),
        Err(e) => Err(e),
    }
}

/// An error, if there is one, as a mathematical value.
pub open spec fn error_of<T>(r: Result<T, SimError>) -> Option<SimError> {
    match r {
        Ok(_) => None,
        Err(e) => Some(e),
    }
}

pub(crate) fn no_packets() -> (v: Vec<RoutingPacket>)
    ensures
        v.deep_view() == Seq::<RoutingPacketView>::empty(),
{
    let v: Vec<RoutingPacket> = Vec::new();
    assert(v.deep_view() =~= Seq::<RoutingPacketView>::empty());
    v
}

pub(crate) fn one_packet(p: RoutingPacket) -> (v: Vec<RoutingPacket>)
    ensures
        v.deep_view() == seq![p@],
{
    let mut v: Vec<RoutingPacket> = Vec::new();
    v.push(p);
    assert(v.deep_view() =~= seq![p@]);
    v
}

/// Moves the packets of `from` to the end of `to`.
pub(crate) fn append_packets(to: &mut Vec<RoutingPacket>, from: Vec<RoutingPacket>)
    ensures
        final(to).deep_view() == old(to).deep_view() + from.deep_view(),
{
    let mut from = from;
    let ghost added = from.deep_view();
    to.append(&mut from);
    assert(to.deep_view() =~= old(to).deep_view() + added);
}

/// Lists the channels that the node has joined, or those that it has not.
pub(crate) fn list_channels(flags: &Vec<bool>, joined: bool) -> (r: Vec<u8>)
    requires
        flags@.len() <= 255,
    ensures
        r@ == channels_where(flags@, joined),
{
    let mut r: Vec<u8> = Vec::new();
    let mut i: usize = 0;
    while i < flags.len()
        invariant
            i <= flags@.len() <= 255,
            r@ == channels_where(flags@.subrange(0, i as int), joined),
        decreases flags@.len() - i,
    {
        proof {
            let next = flags@.subrange(0, i + 1);
            assert(next.drop_last() =~= flags@.subrange(0, i as int));
        }
        if flags[i] == joined {
            r.push(i as u8);
        }
        i = i + 1;
    }
    assert(flags@.subrange(0, flags@.len() as int) =~= flags@);
    r
}

/// Lists the channels on which the node has no parent.
pub(crate) fn list_orphaned(parents: &Vec<u32>) -> (r: Vec<u8>)
    requires
        parents@.len() <= 255,
    ensures
        r@ == orphaned_channels(parents@),
{
    let mut r: Vec<u8> = Vec::new();
    let mut i: usize = 0;
    while i < parents.len()
        invariant
            i <= parents@.len() <= 255,
            r@ == orphaned_channels(parents@.subrange(0, i as int)),
        decreases parents@.len() - i,
    {
        proof {
            let next = parents@.subrange(0, i + 1);
            assert(next.drop_last() =~= parents@.subrange(0, i as int));
        }
        if parents[i] == 0 {
            r.push(i as u8);
        }
        i = i + 1;
    }
    assert(parents@.subrange(0, parents@.len() as int) =~= parents@);
    r
}

impl MultiTreeFunction {
    /// Makes the core of a node with the routing id `id`.
    pub fn new_with(node_type: &NodeType, channel_num: u8, id: u32) -> (r: Self)
        requires
            channel_num > 0,
            node_type@ is Coordinator ==> 1 <= id <= channel_num,
        ensures
            r@ == TreeView::initial(node_type@, channel_num, id),
            r@.wf(),
    {
        let coordinator = node_type.is_coordinator();
        let mut network_joined: Vec<bool> = Vec::new();
        let mut parent_ids: Vec<u32> = Vec::new();
        let mut tables: Vec<HashMap<u32, u32>> = Vec::new();
        let mut i: u8 = 0;
        while i < channel_num
            invariant
                i <= channel_num,
                coordinator == (node_type@ is Coordinator),
                network_joined@.len() == i,
                parent_ids@.len() == i,
                tables@.len() == i,
                forall|j: int| 0 <= j < i ==> network_joined@[j] == (coordinator && j == id - 1),
                forall|j: int|
                    0 <= j < i ==> parent_ids@[j] == (if coordinator && j == id - 1 {
                        id
                    } else {
                        0u32
                    }),
                forall|j: int| 0 <= j < i ==> (#[trigger] tables@[j])@ == Map::<u32, u32>::empty(),
            decreases channel_num - i,
        {
            let own = coordinator && i as u32 + 1 == id;
            network_joined.push(own);
            parent_ids.push(if own { id } else { 0 });
            tables.push(HashMap::new());
            i = i + 1;
        }
        let mut send_packet_buffer: Vec<RoutingPacket> = Vec::new();
        if !coordinator {
            send_packet_buffer.push(
                RoutingPacket {
                    message: String::from_str("preq"),
                    packet_id: u32::MAX,
                    dest_id: BROADCAST_ID,
                    source_id: id,
                    prev_id: id,
                    channel_id: ANY_CHANNEL,
                    next_id: BROADCAST_ID,
                },
            );
        }
        let r = MultiTreeFunction {
            id,
            channel_num,
            send_packet_buffer,
            received_packet_buffer: Vec::new(),
            network_joined,
            node_type: node_type.clone(),
            tables,
            packet_num_cnt: 0,
            parent_ids,
            channel_history: channel_num - 1,
        };
        proof {
            let v = TreeView::initial(node_type@, channel_num, id);
            assert(r@.send =~= v.send);
            assert(r@.received =~= v.received);
            assert(r@.joined =~= v.joined);
            assert(r@.tables =~= v.tables);
            assert(r@.parent_ids =~= v.parent_ids);
        }
        r
    }

    /// Makes the core of a node. A coordinator takes the next coordinator id
    /// of the table, which must not exceed the number of channels; any other
    /// node draws an id above the coordinators' and below the id that
    /// addresses every node.
    pub fn new(node_type: &NodeType, channel_num: u8, table: &mut VidTable) -> (r: Result<
        Self,
        SimError,
    >)
        requires
            channel_num > 0,
        ensures
            final(table).v_to_p == old(table).v_to_p,
            final(table).p_to_v == old(table).p_to_v,
            old(table).wf() ==> final(table).wf(),
            final(table).coordinator_cnt == counter_after(
                node_type@,
                channel_num,
                old(table).coordinator_cnt,
            ),
            r is Ok <==> can_make(node_type@, channel_num, old(table).coordinator_cnt),
            match r {
                Ok(f) => f@.wf() && f@ == TreeView::initial(node_type@, channel_num, f@.id) && (
                if node_type@ is Coordinator {
                    f@.id == old(table).coordinator_cnt
                } else {
                    channel_num < f@.id < BROADCAST_ID
                }),
                Err(e) => e == SimError::TooManyCoordinators,
            },
    {
        if node_type.is_coordinator() {
            let id = table.take_coordinator_id(channel_num);
            if id < 1 || id > channel_num as u32 {
                return Err(SimError::TooManyCoordinators);
            }
            Ok(Self::new_with(node_type, channel_num, id))
        } else {
            let id = random_in_range(channel_num as u32 + 1, BROADCAST_ID);
            Ok(Self::new_with(node_type, channel_num, id))
        }
    }

    /// Whether the node has joined the tree of every channel.
    pub fn is_joined(&self) -> (b: bool)
        ensures
            b == self@.is_joined(),
    {
        let mut i: usize = 0;
        while i < self.network_joined.len()
            invariant
                i <= self.network_joined@.len(),
                forall|c: int| 0 <= c < i ==> self.network_joined@[c],
            decreases self.network_joined@.len() - i,
        {
            if !self.network_joined[i] {
                assert(!self@.joined[i as int]);
                return false;
            }
            i = i + 1;
        }
        true
    }

    /// The parent on each channel, where there is one.
    pub fn get_parent_id(&self) -> (r: Vec<Option<u32>>)
        ensures
            r@ == self@.parents(),
    {
        let mut r: Vec<Option<u32>> = Vec::new();
        let mut i: usize = 0;
        while i < self.parent_ids.len()
            invariant
                i <= self.parent_ids@.len(),
                r@ =~= self@.parents().subrange(0, i as int),
            decreases self.parent_ids@.len() - i,
        {
            let x = self.parent_ids[i];
            r.push(if x == 0 { None } else { Some(x) });
            i = i + 1;
        }
        assert(self@.parents().subrange(0, self@.parents().len() as int) =~= self@.parents());
        r
    }

    /// Queues a message of the node's user for sending. Fails, and changes
    /// nothing, where the destination has no routing id, or no next hop
    /// leads to it.
    pub fn push_new_packet(&mut self, packet: &InjectionPacket, table: &VidTable) -> (r: Result<
        (),
        SimError,
    >)
        requires
            old(self)@.wf(),
            table.wf(),
        ensures
            final(self)@.wf(),
            if !table.vids().contains_key(packet.dest_id@) {
                r == Err::<(), SimError>(SimError::UnknownNode) && final(self)@ == old(self)@
            } else {
                let (s, e) = old(self)@.push_new(
                    packet.message@,
                    table.vids()[packet.dest_id@],
                );
                final(self)@ == s && error_of(r) == e
            },
    {
        let dest_vid = match get_vid(table, packet.dest_id.as_str()) {
            Some(v) => v,
            None => {
                return Err(SimError::UnknownNode);
            },
        };
        let channel_id = (((self.channel_history as u16) + 1) % (self.channel_num as u16)) as u8;
        let next_vid = match self.next_node_id(dest_vid, channel_id) {
            Some(n) => n,
            None => {
                return Err(SimError::NoRoute);
            },
        };
        self.channel_history = channel_id;
        let packet = self.gen_packet(self.id, dest_vid, next_vid, channel_id, packet.message.clone());
        let ghost before = self.send_packet_buffer.deep_view();
        self.send_packet_buffer.push(packet);
        assert(self.send_packet_buffer.deep_view() =~= before.push(packet@));
        self.packet_num_cnt = following(self.packet_num_cnt);
        Ok(())
    }

    /// Takes the packet at the head of the queue and dresses it for the
    /// network. The packet leaves the queue also where a node on its way has
    /// no name.
    pub fn send_packet(&mut self, table: &VidTable) -> (r: Result<Option<Packet>, SimError>)
        requires
            old(self)@.wf(),
        ensures
            final(self)@.wf(),
            if old(self)@.send.len() == 0 {
                r == Ok::<Option<Packet>, SimError>(None) && final(self)@ == old(self)@
            } else {
                &&& final(self)@ == (TreeView {
                    send: old(self)@.send.subrange(1, old(self)@.send.len() as int),
                    ..old(self)@
                })
                &&& match r {
                    Ok(Some(p)) => old(self)@.outgoing(table.pids()) == Ok::<PacketView, SimError>(
                        p@,
                    ),
                    Ok(None) => false,
                    Err(e) => old(self)@.outgoing(table.pids()) == Err::<PacketView, SimError>(e),
                }
            },
    {
        if self.send_packet_buffer.len() == 0 {
            return Ok(None);
        }
        let packet = self.send_packet_buffer.remove(0);
        assert(self.send_packet_buffer.deep_view() =~= old(self)@.send.subrange(
            1,
            old(self)@.send.len() as int,
        ));
        assert(packet@ == old(self)@.send[0]);
        let data = packet.encode();
        match (
            get_pid(table, self.id),
            get_pid(table, packet.dest_id),
            get_pid(table, packet.source_id),
            get_pid(table, packet.next_id),
        ) {
            (Some(prev_pid), Some(dest_pid), Some(src_pid), Some(next_pid)) => Ok(
                Some(
                    Packet {
                        data,
                        packet_id: packet.packet_id,
                        dest_id: dest_pid,
                        source_id: src_pid,
                        next_id: next_pid,
                        prev_id: prev_pid,
                        channel_id: packet.channel_id,
                    },
                ),
            ),
            _ => Err(SimError::UnknownNode),
        }
    }

    /// Takes a packet from the network into the queue of packets to work
    /// off. Fails, and changes nothing, where the packet cannot be read.
    pub fn receive_packet(&mut self, packet: &Packet, table: &VidTable) -> (r: Result<(), SimError>)
        requires
            old(self)@.wf(),
            table.wf(),
        ensures
            final(self)@.wf(),
            match RoutingPacketView::from_general(packet@, table.vids()) {
                Ok(p) => r is Ok && final(self)@ == (TreeView {
                    received: old(self)@.received.push(p),
                    ..old(self)@
                }),
                Err(e) => r == Err::<(), SimError>(e) && final(self)@ == old(self)@,
            },
    {
        let p = RoutingPacket::from_general(packet, table)?;
        let ghost before = self.received_packet_buffer.deep_view();
        self.received_packet_buffer.push(p);
        assert(self.received_packet_buffer.deep_view() =~= before.push(p@));
        Ok(())
    }

    /// One cycle of the core: with a chance of one in ten a node that lacks
    /// a parent asks for one; then the packets that came in are worked off.
    pub fn update(&mut self) -> (r: Result<(), SimError>)
        requires
            old(self)@.wf(),
        ensures
            final(self)@.wf(),
            exists|emit: bool, pick: u32, picks: Seq<u32>|
                (final(self)@, error_of(r)) == old(self)@.update(emit, pick, picks),
    {
        let emit = random_ratio(1, 10);
        let pick = random_u32();
        let picks = random_picks(self.received_packet_buffer.len());
        self.update_with(emit, pick, &picks)
    }

    /// One cycle of the core, with the numbers that decide its choices.
    pub fn update_with(&mut self, emit: bool, pick: u32, picks: &Vec<u32>) -> (r: Result<
        (),
        SimError,
    >)
        requires
            old(self)@.wf(),
        ensures
            final(self)@.wf(),
            (final(self)@, error_of(r)) == old(self)@.update(emit, pick, picks@),
    {
        self.ask_for_parent(emit, pick);
        let ghost start = self@;
        let total: usize = self.received_packet_buffer.len();
        let mut i: usize = 0;
        while self.received_packet_buffer.len() > 0
            invariant
                self@.wf(),
                i + self.received_packet_buffer@.len() == total,
                start == old(self)@.ask_for_parent(emit, pick),
                start.drain(picks@, 0) == self@.drain(picks@, i as int),
            decreases self.received_packet_buffer@.len(),
        {
            let ghost before = self@;
            let packet = self.received_packet_buffer.remove(0);
            assert(self.received_packet_buffer.deep_view() =~= before.received.subrange(
                1,
                before.received.len() as int,
            ));
            let pick_i = if i < picks.len() {
                picks[i]
            } else {
                0
            };
            let ghost rest = self@.received;
            assert(self@ == (TreeView { received: rest, ..before }));
            assert(pick_i == TreeView::pick_at(picks@, i as int));
            match self.process_received_packet(&packet, pick_i) {
                Ok(reply) => {
                    append_packets(&mut self.send_packet_buffer, reply);
                },
                Err(e) => {
                    assert(self@ == (TreeView { received: rest, ..self@ }));
                    assert(before.drain(picks@, i as int) == (self@, Some(e)));
                    return Err(e);
                },
            }
            i = i + 1;
        }
        Ok(())
    }

    /// Passes on a flit of a packet that is cut through this node: notes
    /// the way back to the flit's source, and addresses the flit to the next
    /// hop towards its destination. Fails, and changes nothing, where a node
    /// is unknown, the channel does not exist or there is no next hop.
    pub fn forward_flit(&mut self, flit: &Flit, table: &VidTable) -> (r: Result<Flit, SimError>)
        requires
            old(self)@.wf(),
            table.wf(),
        ensures
            final(self)@.wf(),
            ({
                let (s, out) = old(self)@.forward(flit@, table.vids(), table.pids());
                final(self)@ == s && match r {
                    Ok(f) => out == Ok::<FlitView, SimError>(f@),
                    Err(e) => out == Err::<FlitView, SimError>(e),
                }
            }),
    {
        if flit.is_empty() {
            return Err(SimError::EmptyFlit);
        }
        let channel_id = flit.get_channel_id().unwrap();
        if channel_id >= self.channel_num {
            return Err(SimError::BadChannel);
        }
        let dest_pid = flit.get_dest_id().unwrap();
        let source_pid = flit.get_source_id().unwrap();
        let prev_pid = flit.get_prev_id().unwrap();
        let (dest_vid, source_vid, prev_vid) = match (
            get_vid(table, dest_pid.as_str()),
            get_vid(table, source_pid.as_str()),
            get_vid(table, prev_pid.as_str()),
        ) {
            (Some(d), Some(s), Some(p)) => (d, s, p),
            _ => {
                return Err(SimError::UnknownNode);
            },
        };
        let next_vid = match self.next_node_id(dest_vid, channel_id) {
            Some(n) => n,
            None => {
                return Err(SimError::NoRoute);
            },
        };
        let next_pid = match get_pid(table, next_vid) {
            Some(p) => p,
            None => {
                return Err(SimError::UnknownNode);
            },
        };
        self.update_table(source_vid, prev_vid, channel_id);
        let mut new_flit = flit.clone();
        let here = flit.get_next_id().unwrap();
        let _ = new_flit.set_prev_id(here.as_str());
        let _ = new_flit.set_next_id(next_pid.as_str());
        Ok(new_flit)
    }

    /// The next hop towards `dest_id` on a channel, if there is one.
    pub fn next_node_id(&self, dest_id: u32, channel_id: u8) -> (r: Option<u32>)
        requires
            self@.wf(),
            channel_id < self.channel_num,
        ensures
            r == self@.next_hop(dest_id, channel_id),
    {
        assert(self@.tables[channel_id as int] == self.tables@[channel_id as int]@);
        match self.tables[channel_id as usize].get(&dest_id) {
            Some(node_id) => {
                return Some(*node_id);
            },
            None => {},
        }
        if dest_id == BROADCAST_ID {
            return Some(BROADCAST_ID);
        }
        let parent = self.parent_ids[channel_id as usize];
        if parent == 0 {
            None
        } else {
            Some(parent)
        }
    }

    /// The channel of the next packet of this node's own, which then has
    /// had its turn.
    pub fn channel_id(&mut self) -> (c: u8)
        requires
            old(self)@.wf(),
        ensures
            c == old(self)@.next_channel(),
            final(self)@ == (TreeView { channel_history: c, ..old(self)@ }),
            final(self)@.wf(),
    {
        let channel_id = (((self.channel_history as u16) + 1) % (self.channel_num as u16)) as u8;
        self.channel_history = channel_id;
        channel_id
    }

    /// Makes a new packet of this node, with the next packet number.
    pub fn gen_packet(
        &mut self,
        src_id: u32,
        dest_id: u32,
        next_id: u32,
        channel_id: u8,
        message: String,
    ) -> (p: RoutingPacket)
        ensures
            (final(self)@, p@) == old(self)@.gen(src_id, dest_id, next_id, channel_id, message@),
    {
        let packet_id = self.packet_num_cnt;
        self.packet_num_cnt = following(self.packet_num_cnt);
        RoutingPacket {
            message,
            packet_id,
            dest_id,
            source_id: src_id,
            prev_id: self.id,
            channel_id,
            next_id,
        }
    }

    /// Notes that `dest_id` is reached through `next_id` on a channel.
    pub fn update_table(&mut self, dest_id: u32, next_id: u32, channel_id: u8)
        requires
            old(self)@.wf(),
            channel_id < old(self).channel_num,
        ensures
            final(self)@ == old(self)@.with_route(dest_id, next_id, channel_id),
            final(self)@.wf(),
    {
        self.tables[channel_id as usize].insert(dest_id, next_id);
        assert(self@.tables =~= old(self)@.with_route(dest_id, next_id, channel_id).tables);
    }

    /// Passes a packet for another node on.
    pub fn routing(&mut self, packet: &RoutingPacket) -> (out: Vec<RoutingPacket>)
        requires
            old(self)@.wf(),
            packet.channel_id < old(self).channel_num,
        ensures
            (final(self)@, out.deep_view()) == old(self)@.route(packet@),
            final(self)@.wf(),
    {
        assert(self@.tables[packet.channel_id as int] == self.tables@[packet.channel_id as int]@);
        let next_id = match self.tables[packet.channel_id as usize].get(&packet.dest_id) {
            Some(n) => *n,
            None => self.parent_ids[packet.channel_id as usize],
        };
        let routing_packet = self.gen_packet(
            packet.source_id,
            packet.dest_id,
            next_id,
            packet.channel_id,
            packet.message.clone(),
        );
        one_packet(routing_packet)
    }

    /// With `emit`, queues a parent request where the node lacks a parent.
    pub fn ask_for_parent(&mut self, emit: bool, pick: u32)
        requires
            old(self)@.wf(),
        ensures
            final(self)@ == old(self)@.ask_for_parent(emit, pick),
            final(self)@.wf(),
    {
        if !emit {
            return ;
        }
        let missing = list_channels(&self.network_joined, false);
        if missing.len() == 0 {
            return ;
        }
        let channel_id = if self.parentless() {
            ANY_CHANNEL
        } else {
            missing[(pick as usize) % missing.len()]
        };
        let new_packet = self.gen_packet(
            self.id,
            BROADCAST_ID,
            BROADCAST_ID,
            channel_id,
            String::from_str("preq"),
        );
        let ghost before = self.send_packet_buffer.deep_view();
        self.send_packet_buffer.push(new_packet);
        assert(self.send_packet_buffer.deep_view() =~= before.push(new_packet@));
    }

    /// Works off one packet that came in; `pick` decides the choice that the
    /// packet may ask for.
    pub fn process_received_packet(&mut self, packet: &RoutingPacket, pick: u32) -> (out: Result<
        Vec<RoutingPacket>,
        SimError,
    >)
        requires
            old(self)@.wf(),
        ensures
            (final(self)@, result_view(out)) == old(self)@.process(packet@, pick),
            final(self)@.wf(),
            final(self)@.received == old(self)@.received,
    {
        if packet.next_id != self.id && packet.next_id != BROADCAST_ID {
            return Ok(no_packets());
        }
        if self.node_type.is_coordinator() {
            self.process_received_packet_coordinator(packet, pick)
        } else if self.node_type.is_router() {
            self.process_received_packet_router(packet, pick)
        } else {
            Err(SimError::UnknownNodeType)
        }
    }

    fn answer_pack(&mut self, packet: &RoutingPacket) -> (out: Result<Vec<RoutingPacket>, SimError>)
        requires
            old(self)@.wf(),
        ensures
            (final(self)@, result_view(out)) == old(self)@.pack_to_me(packet@),
            final(self)@.wf(),
            final(self)@.received == old(self)@.received,
    {
        if packet.channel_id >= self.channel_num {
            return Err(SimError::BadChannel);
        }
        if self.parent_ids[packet.channel_id as usize] != 0 {
            return Ok(no_packets());
        }
        self.parent_ids[packet.channel_id as usize] = packet.source_id;
        let jreq = self.gen_packet(
            self.id,
            packet.channel_id as u32 + 1,
            packet.source_id,
            packet.channel_id,
            String::from_str("jreq"),
        );
        Ok(one_packet(jreq))
    }

    fn answer_jack(&mut self, packet: &RoutingPacket, pick: u32) -> (out: Result<
        Vec<RoutingPacket>,
        SimError,
    >)
        requires
            old(self)@.wf(),
        ensures
            (final(self)@, result_view(out)) == old(self)@.jack_to_me(packet@, pick),
            final(self)@.wf(),
            final(self)@.received == old(self)@.received,
    {
        if packet.channel_id >= self.channel_num {
            return Err(SimError::BadChannel);
        }
        self.network_joined[packet.channel_id as usize] = true;
        let orphaned = list_orphaned(&self.parent_ids);
        if orphaned.len() == 0 {
            return Ok(no_packets());
        }
        let wanted = orphaned[(pick as usize) % orphaned.len()];
        let preq = self.gen_packet(
            self.id,
            BROADCAST_ID,
            BROADCAST_ID,
            wanted,
            String::from_str("preq"),
        );
        Ok(one_packet(preq))
    }

    fn pass_on(&mut self, packet: &RoutingPacket) -> (out: Result<Vec<RoutingPacket>, SimError>)
        requires
            old(self)@.wf(),
        ensures
            (final(self)@, result_view(out)) == old(self)@.pass_on(packet@),
            final(self)@.wf(),
            final(self)@.received == old(self)@.received,
    {
        if packet.channel_id >= self.channel_num {
            return Err(SimError::BadChannel);
        }
        Ok(self.routing(packet))
    }

    /// What a coordinator does with a packet that names it, or every node,
    /// as next hop.
    pub fn process_received_packet_coordinator(&mut self, packet: &RoutingPacket, pick: u32) -> (out:
        Result<Vec<RoutingPacket>, SimError>)
        requires
            old(self)@.wf(),
            old(self)@.node_type is Coordinator,
        ensures
            (final(self)@, result_view(out)) == old(self)@.at_coordinator(packet@, pick),
            final(self)@.wf(),
            final(self)@.received == old(self)@.received,
    {
        let kind = classify_join(&packet.message);
        if packet.dest_id == BROADCAST_ID {
            if !matches!(kind, MessageKind::Preq) {
                return Err(SimError::UnexpectedMessage);
            }
            let own = (self.id - 1) as u8;
            let channel_id = if packet.channel_id == ANY_CHANNEL {
                own
            } else {
                packet.channel_id
            };
            if channel_id != own {
                if channel_id >= self.channel_num {
                    return Err(SimError::BadChannel);
                }
                if !self.network_joined[channel_id as usize] {
                    return Ok(no_packets());
                }
            }
            let pack = self.gen_packet(
                self.id,
                packet.source_id,
                packet.source_id,
                channel_id,
                String::from_str("pack"),
            );
            Ok(one_packet(pack))
        } else if packet.dest_id == self.id {
            match kind {
                MessageKind::Pack => self.answer_pack(packet),
                MessageKind::Jreq => {
                    if packet.channel_id as u32 + 1 != self.id {
                        return Ok(no_packets());
                    }
                    self.update_table(packet.source_id, packet.prev_id, packet.channel_id);
                    let jack = self.gen_packet(
                        self.id,
                        packet.source_id,
                        packet.prev_id,
                        packet.channel_id,
                        String::from_str("jack"),
                    );
                    Ok(one_packet(jack))
                },
                MessageKind::Jack => self.answer_jack(packet, pick),
                MessageKind::User => Ok(no_packets()),
                _ => Err(SimError::UnexpectedMessage),
            }
        } else {
            match kind {
                MessageKind::User => self.pass_on(packet),
                _ => Err(SimError::UnexpectedMessage),
            }
        }
    }

    /// What a router does with a packet that names it, or every node, as
    /// next hop.
    pub fn process_received_packet_router(&mut self, packet: &RoutingPacket, pick: u32) -> (out:
        Result<Vec<RoutingPacket>, SimError>)
        requires
            old(self)@.wf(),
        ensures
            (final(self)@, result_view(out)) == old(self)@.at_router(packet@, pick),
            final(self)@.wf(),
            final(self)@.received == old(self)@.received,
    {
        let kind = classify_join(&packet.message);
        if packet.dest_id == BROADCAST_ID {
            if !matches!(kind, MessageKind::Preq) {
                return Err(SimError::UnexpectedMessage);
            }
            let open_channels = list_channels(&self.network_joined, true);
            if open_channels.len() == 0 {
                return Ok(no_packets());
            }
            if packet.channel_id < self.channel_num && !self.network_joined[packet.channel_id as usize] {
                return Ok(no_packets());
            }
            let channel_id = open_channels[(pick as usize) % open_channels.len()];
            let pack = self.gen_packet(
                self.id,
                packet.source_id,
                packet.source_id,
                channel_id,
                String::from_str("pack"),
            );
            Ok(one_packet(pack))
        } else if packet.dest_id == self.id {
            match kind {
                MessageKind::Pack => self.answer_pack(packet),
                MessageKind::Jack => self.answer_jack(packet, pick),
                MessageKind::User => Ok(no_packets()),
                _ => Err(SimError::UnexpectedMessage),
            }
        } else {
            match kind {
                MessageKind::Jreq => {
                    if packet.channel_id >= self.channel_num {
                        return Err(SimError::BadChannel);
                    }
                    self.update_table(packet.source_id, packet.prev_id, packet.channel_id);
                    self.pass_on(packet)
                },
                MessageKind::Jack | MessageKind::User => self.pass_on(packet),
                _ => Err(SimError::UnexpectedMessage),
            }
        }
    }

    fn parentless(&self) -> (b: bool)
        ensures
            b == self@.parentless(),
    {
        let mut i: usize = 0;
        while i < self.parent_ids.len()
            invariant
                i <= self.parent_ids@.len(),
                forall|c: int| 0 <= c < i ==> self.parent_ids@[c] == 0,
            decreases self.parent_ids@.len() - i,
        {
            if self.parent_ids[i] != 0 {
                assert(self@.parent_ids[i as int] != 0);
                return false;
            }
            i = i + 1;
        }
        true
    }
}

impl TreeView {
    /// On every channel that the node has joined it has a parent.
    pub open spec fn joined_have_parents(self) -> bool {
        forall|c: int| 0 <= c < self.joined.len() ==> self.joined[c] ==> self.parent_ids[c] != 0
    }

    /// Whether the packet lets the node into a channel on which it has no
    /// parent: a join answer for this node that names it, or every node,
    /// as next hop.
    pub open spec fn lets_in_without_parent(self, p: RoutingPacketView) -> bool {
        &&& join_kind(p.message) is Jack
        &&& p.dest_id == self.id
        &&& (p.next_id == self.id || p.next_id == BROADCAST_ID)
        &&& p.channel_id < self.channel_num
        &&& self.parent_ids[p.channel_id as int] == 0
    }

    /// Whether none of the packets that came in, each taken as the core is
    /// when its turn comes, lets the node into a channel on which it has no
    /// parent.
    pub open spec fn drain_safe(self, picks: Seq<u32>, i: int) -> bool
        decreases self.received.len(),
    {
        if self.received.len() == 0 {
            true
        } else {
            let rest = self.received.subrange(1, self.received.len() as int);
            let s0 = TreeView { received: rest, ..self };
            let (s, r) = s0.process(self.received[0], Self::pick_at(picks, i));
            !s0.lets_in_without_parent(self.received[0]) && (match r {
                Err(e) => true,
                Ok(out) => (TreeView { received: rest, send: s.send + out, ..s }).drain_safe(
                    picks,
                    i + 1,
                ),
            })
        }
    }
}

/// A core starts with a parent on every channel that it has joined.
pub proof fn lemma_initially_joined_have_parents(node_type: NodeTypeView, channel_num: u8, id: u32)
    requires
        channel_num > 0,
        node_type is Coordinator ==> 1 <= id <= channel_num,
    ensures
        TreeView::initial(node_type, channel_num, id).joined_have_parents(),
{
}

/// Working off a packet keeps a parent on every channel that the node has
/// joined, unless the packet lets the node into a channel on which it has
/// none.
pub proof fn lemma_joined_have_parents(s: TreeView, p: RoutingPacketView, pick: u32)
    requires
        s.wf(),
        s.joined_have_parents(),
        !s.lets_in_without_parent(p),
    ensures
        s.process(p, pick).0.joined_have_parents(),
        s.process(p, pick).0.wf(),
{
    let t = s.process(p, pick).0;
    assert forall|c: int| 0 <= c < t.joined.len() && t.joined[c] implies t.parent_ids[c] != 0 by {
        assert(s.joined[c] ==> s.parent_ids[c] != 0);
    }
}

/// Working off the packets that came in keeps a parent on every channel
/// that the node has joined, unless one of them lets the node into a channel
/// on which it has none.
pub proof fn lemma_drain_keeps_parents(s: TreeView, picks: Seq<u32>, i: int)
    requires
        s.wf(),
        s.joined_have_parents(),
        s.drain_safe(picks, i),
    ensures
        s.drain(picks, i).0.joined_have_parents(),
        s.drain(picks, i).0.wf(),
    decreases s.received.len(),
{
    if s.received.len() > 0 {
        let rest = s.received.subrange(1, s.received.len() as int);
        let s0 = TreeView { received: rest, ..s };
        let pick = TreeView::pick_at(picks, i);
        let (t, r) = s0.process(s.received[0], pick);
        lemma_joined_have_parents(s0, s.received[0], pick);
        match r {
            Err(e) => {},
            Ok(out) => {
                lemma_drain_keeps_parents(
                    TreeView { received: rest, send: t.send + out, ..t },
                    picks,
                    i + 1,
                );
            },
        }
    }
}

/// A cycle of the core keeps a parent on every channel that the node has
/// joined, unless one of the packets that came in lets the node into a
/// channel on which it has none.
pub proof fn lemma_cycle_keeps_parents(s: TreeView, emit: bool, pick: u32, picks: Seq<u32>)
    requires
        s.wf(),
        s.joined_have_parents(),
        s.ask_for_parent(emit, pick).drain_safe(picks, 0),
    ensures
        s.update(emit, pick, picks).0.joined_have_parents(),
        s.update(emit, pick, picks).0.wf(),
{
    lemma_drain_keeps_parents(s.ask_for_parent(emit, pick), picks, 0);
}

} // verus!
