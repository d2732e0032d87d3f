use vstd::prelude::*;
use crate::error::SimError;
use crate::hardware::constants::BROADCAST_ID;
use crate::network::core_functions::multi_tree::{
    can_make, counter_after, error_of, MultiTreeFunction, TreeView,
};
use crate::network::core_functions::packets::{InjectionPacket, Packet, PacketView, RoutingPacketView};
use crate::network::flit::{Flit, FlitView};
use crate::network::vid::VidTable;
use crate::sim::node_type::NodeType;

verus! {

/// A routing core of the default kind: one tree on one channel, rooted at
/// the coordinator, which has the routing id 1.
#[derive(Debug)]
pub struct DefaultFunction {
    pub tree: MultiTreeFunction,
}

impl View for DefaultFunction {
    type V = TreeView;

    open spec fn view(&self) -> TreeView {
        self.tree@
    }
}

impl DefaultFunction {
    pub open spec fn wf(&self) -> bool {
        self@.wf() && self@.channel_num == 1
    }

    /// Makes the core of a node with the routing id `id`.
    pub fn new_with(node_type: &NodeType, id: u32) -> (r: Self)
        requires
            node_type@ is Coordinator ==> id == 1,
        ensures
            r@ == TreeView::initial(node_type@, 1, id),
            r.wf(),
    {
        DefaultFunction { tree: MultiTreeFunction::new_with(node_type, 1, id) }
    }

    /// Makes the core of a node: a coordinator takes the table's next
    /// coordinator id, which must be 1; any other node draws an id.
    pub fn new(node_type: &NodeType, table: &mut VidTable) -> (r: Result<Self, SimError>)
        ensures
            final(table).v_to_p == old(table).v_to_p,
            final(table).p_to_v == old(table).p_to_v,
            old(table).wf() ==> final(table).wf(),
            final(table).coordinator_cnt == counter_after(
                node_type@,
                1,
                old(table).coordinator_cnt,
            ),
            r is Ok <==> can_make(node_type@, 1, old(table).coordinator_cnt),
            match r {
                Ok(f) => f.wf() && f@ == TreeView::initial(node_type@, 1, f@.id) && (
                if node_type@ is Coordinator {
                    f@.id == 1
                } else {
                    1 < f@.id < BROADCAST_ID
                }),
                Err(e) => e == SimError::TooManyCoordinators,
            },
    {
        let tree = MultiTreeFunction::new(node_type, 1, table)?;
        Ok(DefaultFunction { tree })
    }

    pub fn get_id(&self) -> (id: u32)
        ensures
            id == self@.id,
    {
        self.tree.id
    }

    pub fn is_joined(&self) -> (b: bool)
        ensures
            b == self@.is_joined(),
    {
        self.tree.is_joined()
    }

    /// The parent, if the node has one.
    pub fn get_parent_id(&self) -> (r: Option<u32>)
        requires
            self.wf(),
        ensures
            r == self@.parents()[0],
    {
        let x = self.tree.parent_ids[0];
        if x == 0 {
            None
        } else {
            Some(x)
        }
    }

    /// Queues a message of the node's user for sending.
    pub fn push_new_packet(&mut self, packet: &InjectionPacket, table: &VidTable) -> (r: Result<
        (),
        SimError,
    >)
        requires
            old(self).wf(),
            table.wf(),
        ensures
            final(self).wf(),
            if !table.vids().contains_key(packet.dest_id@) {
                r == Err::<(), SimError>(SimError::UnknownNode) && final(self)@ == old(self)@
            } else {
                let (s, e) = old(self)@.push_new(packet.message@, table.vids()[packet.dest_id@]);
                final(self)@ == s && error_of(r) == e
            },
    {
        self.tree.push_new_packet(packet, table)
    }

    /// Takes the packet at the head of the queue and dresses it for the
    /// network.
    pub fn send_packet(&mut self, table: &VidTable) -> (r: Result<Option<Packet>, SimError>)
        requires
            old(self).wf(),
        ensures
            final(self).wf(),
            if old(self)@.send.len() == 0 {
                r == Ok::<Option<Packet>, SimError>(None) && final(self)@ == old(self)@
            } else {
                &&& final(self)@ == (TreeView {
                    send: old(self)@.send.subrange(1, old(self)@.send.len() as int),
                    ..old(self)@
                })
                &&& match r {
                    Ok(Some(p)) => old(self)@.outgoing(table.pids()) == Ok::<PacketView, SimError>(
                        p@,
                    ),
                    Ok(None) => false,
                    Err(e) => old(self)@.outgoing(table.pids()) == Err::<PacketView, SimError>(e),
                }
            },
    {
        self.tree.send_packet(table)
    }

    /// Takes a packet from the network into the queue of packets to work
    /// off.
    pub fn receive_packet(&mut self, packet: &Packet, table: &VidTable) -> (r: Result<(), SimError>)
        requires
            old(self).wf(),
            table.wf(),
        ensures
            final(self).wf(),
            match RoutingPacketView::from_general(packet@, table.vids()) {
                Ok(p) => r is Ok && final(self)@ == (TreeView {
                    received: old(self)@.received.push(p),
                    ..old(self)@
                }),
                Err(e) => r == Err::<(), SimError>(e) && final(self)@ == old(self)@,
            },
    {
        self.tree.receive_packet(packet, table)
    }

    /// One cycle of the core: now and then a node without parent asks for
    /// one; then the packets that came in are worked off.
    pub fn update(&mut self) -> (r: Result<(), SimError>)
        requires
            old(self).wf(),
        ensures
            final(self).wf(),
            exists|emit: bool, pick: u32, picks: Seq<u32>|
                (final(self)@, error_of(r)) == old(self)@.update(emit, pick, picks),
    {
        let ghost n = self@.channel_num;
        let r = self.tree.update();
        proof {
            lemma_update_keeps_channels(old(self)@);
        }
        r
    }

    /// One cycle of the core, with the numbers that decide its choices.
    pub fn update_with(&mut self, emit: bool, pick: u32, picks: &Vec<u32>) -> (r: Result<
        (),
        SimError,
    >)
        requires
            old(self).wf(),
        ensures
            final(self).wf(),
            (final(self)@, error_of(r)) == old(self)@.update(emit, pick, picks@),
    {
        proof {
            lemma_update_keeps_channels(old(self)@);
        }
        self.tree.update_with(emit, pick, picks)
    }

    /// Passes on a flit of a packet that is cut through this node.
    pub fn forward_flit(&mut self, flit: &Flit, table: &VidTable) -> (r: Result<Flit, SimError>)
        requires
            old(self).wf(),
            table.wf(),
        ensures
            final(self).wf(),
            ({
                let (s, out) = old(self)@.forward(flit@, table.vids(), table.pids());
                final(self)@ == s && match r {
                    Ok(f) => out == Ok::<FlitView, SimError>(f@),
                    Err(e) => out == Err::<FlitView, SimError>(e),
                }
            }),
    {
        self.tree.forward_flit(flit, table)
    }
}

/// No step of the core changes the number of channels.
pub proof fn lemma_process_keeps_channels(s: TreeView, p: RoutingPacketView, pick: u32)
    ensures
        s.process(p, pick).0.channel_num == s.channel_num,
{
}

/// No cycle of the core changes the number of channels.
pub proof fn lemma_update_keeps_channels(s: TreeView)
    ensures
        forall|emit: bool, pick: u32, picks: Seq<u32>|
            (#[trigger] s.update(emit, pick, picks)).0.channel_num == s.channel_num,
{
    assert forall|emit: bool, pick: u32, picks: Seq<u32>|
        (#[trigger] s.update(emit, pick, picks)).0.channel_num == s.channel_num by {
        lemma_drain_keeps_channels(s.ask_for_parent(emit, pick), picks, 0);
    }
}

proof fn lemma_drain_keeps_channels(s: TreeView, picks: Seq<u32>, i: int)
    ensures
        s.drain(picks, i).0.channel_num == s.channel_num,
    decreases s.received.len(),
{
    if s.received.len() > 0 {
        let rest = s.received.subrange(1, s.received.len() as int);
        let s0 = TreeView { received: rest, ..s };
        let (t, r) = s0.process(s.received[0], TreeView::pick_at(picks, i));
        lemma_process_keeps_channels(s0, s.received[0], TreeView::pick_at(picks, i));
        match r {
            Err(e) => {},
            Ok(out) => {
                lemma_drain_keeps_channels(
                    TreeView { received: rest, send: t.send + out, ..t },
                    picks,
                    i + 1,
                );
            },
        }
    }
}

} // verus!
