pub mod default;
pub mod dynamic;
pub mod message;
pub mod multi_tree;
pub mod packets;

use vstd::prelude::*;
use vstd::string::*;
use crate::error::SimError;
use crate::network::core_functions::default::DefaultFunction;
use crate::network::core_functions::dynamic::{lost_of, DynamicFunction, DynamicView};
use crate::hardware::constants::BROADCAST_ID;
use crate::network::core_functions::multi_tree::{
    can_make, counter_after, error_of, MultiTreeFunction, TreeView,
};
use crate::network::core_functions::packets::{
    InjectionPacket, Packet, PacketView, RoutingPacket, RoutingPacketView,
};
use crate::network::flit::{Flit, FlitView};
use crate::network::option::UpdateOption;
use crate::network::vid::VidTable;
use crate::sim::node_type::{NodeType, NodeTypeView};

verus! {

/// The routing core of a node, of one of three kinds.
#[derive(Debug)]
pub enum CoreFunction {
    DefaultFunction(DefaultFunction),
    MultiTreeFunction(MultiTreeFunction),
    DynamicFunction(DynamicFunction),
}

pub enum CoreView {
    Default(TreeView),
    MultiTree(TreeView),
    Dynamic(DynamicView),
}

impl View for CoreFunction {
    type V = CoreView;

    open spec fn view(&self) -> CoreView {
        match self {
            CoreFunction::DefaultFunction(f) => CoreView::Default(f@),
            CoreFunction::MultiTreeFunction(f) => CoreView::MultiTree(f@),
            CoreFunction::DynamicFunction(f) => CoreView::Dynamic(f@),
        }
    }
}

/// The kinds of routing core, by the word that names each.
pub enum CoreKind {
    Default,
    MultiTree,
    Dynamic,
}

/// The kind of routing core that a configuration word names, if it names
/// one.
pub open spec fn core_kind(rf_kind: Seq<char>) -> Option<CoreKind> {
    if rf_kind == "default"@ {
        Some(CoreKind::Default)
    } else if rf_kind == "multi_tree"@ {
        Some(CoreKind::MultiTree)
    } else if rf_kind == "dynamic"@ {
        Some(CoreKind::Dynamic)
    } else {
        None
    }
}

/// The number of channels of a core: one for a default core, else as many
/// as the node has.
pub open spec fn core_channels(kind: CoreKind, channel_num: u8) -> u8 {
    match kind {
        CoreKind::Default => 1,
        _ => channel_num,
    }
}

/// Whether the core of a node can be made: the word names a kind of core,
/// and a coordinator finds the next coordinator id among the ids of the
/// core's channels.
pub open spec fn can_make_core(
    rf_kind: Seq<char>,
    node_type: NodeTypeView,
    channel_num: u8,
    cnt: u32,
) -> bool {
    core_kind(rf_kind) matches Some(kind) && can_make(
        node_type,
        core_channels(kind, channel_num),
        cnt,
    )
}

/// The next coordinator id after the core of a node was made, or could not
/// be made.
pub open spec fn core_counter_after(
    rf_kind: Seq<char>,
    node_type: NodeTypeView,
    channel_num: u8,
    cnt: u32,
) -> u32 {
    match core_kind(rf_kind) {
        Some(kind) => counter_after(node_type, core_channels(kind, channel_num), cnt),
        None => cnt,
    }
}

impl CoreView {
    /// The tree state that every kind of core has.
    pub open spec fn tree(self) -> TreeView {
        match self {
            CoreView::Default(t) => t,
            CoreView::MultiTree(t) => t,
            CoreView::Dynamic(d) => d.tree,
        }
    }

    pub open spec fn with_tree(self, t: TreeView) -> CoreView {
        match self {
            CoreView::Default(_) => CoreView::Default(t),
            CoreView::MultiTree(_) => CoreView::MultiTree(t),
            CoreView::Dynamic(d) => CoreView::Dynamic(d.with_tree(t)),
        }
    }

    pub open spec fn wf(self) -> bool {
        match self {
            CoreView::Default(t) => t.wf() && t.channel_num == 1,
            CoreView::MultiTree(t) => t.wf(),
            CoreView::Dynamic(d) => d.wf(),
        }
    }

    /// The core of a kind as it starts. A default core has one channel.
    pub open spec fn initial(kind: CoreKind, node_type: NodeTypeView, channel_num: u8, id: u32) -> CoreView {
        match kind {
            CoreKind::Default => CoreView::Default(TreeView::initial(node_type, 1, id)),
            CoreKind::MultiTree => CoreView::MultiTree(
                TreeView::initial(node_type, channel_num, id),
            ),
            CoreKind::Dynamic => CoreView::Dynamic(
                DynamicView::initial(node_type, channel_num, id),
            ),
        }
    }

    /// One cycle of the core. Only a dynamic core reads `probes` and `lost`.
    pub open spec fn update(
        self,
        emit: bool,
        pick: u32,
        probes: Seq<bool>,
        lost: Seq<u32>,
        picks: Seq<u32>,
    ) -> (CoreView, Option<SimError>) {
        match self {
            CoreView::Default(t) => (CoreView::Default(t.update(emit, pick, picks).0), t.update(
                emit,
                pick,
                picks,
            ).1),
            CoreView::MultiTree(t) => (
                CoreView::MultiTree(t.update(emit, pick, picks).0),
                t.update(emit, pick, picks).1,
            ),
            CoreView::Dynamic(d) => (
                CoreView::Dynamic(d.update(emit, pick, probes, lost, picks).0),
                d.update(emit, pick, probes, lost, picks).1,
            ),
        }
    }

    /// The flit of a packet that is cut through the node, as it leaves, and
    /// the core after it.
    pub open spec fn forward(
        self,
        f: FlitView,
        vids: Map<Seq<char>, u32>,
        pids: Map<u32, Seq<char>>,
    ) -> (CoreView, Result<FlitView, SimError>) {
        match self {
            CoreView::Default(t) => (
                CoreView::Default(t.forward(f, vids, pids).0),
                t.forward(f, vids, pids).1,
            ),
            CoreView::MultiTree(t) => (
                CoreView::MultiTree(t.forward(f, vids, pids).0),
                t.forward(f, vids, pids).1,
            ),
            CoreView::Dynamic(d) => (
                CoreView::Dynamic(d.forward(f, vids, pids).0),
                d.forward(f, vids, pids).1,
            ),
        }
    }
}

/// The message that a packet carries, or why it cannot be read.
pub open spec fn message_of(gp: PacketView, vids: Map<Seq<char>, u32>) -> Result<
    Seq<char>,
    SimError,
> {
    match RoutingPacketView::from_general(gp, vids) {
        Ok(p) => Ok(p.message),
        Err(e) => Err(e),
    }
}

impl CoreFunction {
    /// Makes the routing core of the kind that `rf_kind` names. A default
    /// core has one channel, whatever `channel_num` says.
    pub fn new(rf_kind: &str, node_type: &NodeType, channel_num: u8, table: &mut VidTable) -> (r:
        Result<Self, SimError>)
        requires
            channel_num > 0,
        ensures
            final(table).v_to_p == old(table).v_to_p,
            final(table).p_to_v == old(table).p_to_v,
            old(table).wf() ==> final(table).wf(),
            final(table).coordinator_cnt == core_counter_after(
                rf_kind@,
                node_type@,
                channel_num,
                old(table).coordinator_cnt,
            ),
            r is Ok <==> can_make_core(
                rf_kind@,
                node_type@,
                channel_num,
                old(table).coordinator_cnt,
            ),
            match r {
                Ok(f) => core_kind(rf_kind@) matches Some(kind) && f@.wf() && f@
                    == CoreView::initial(kind, node_type@, channel_num, f@.tree().id) && (
                if node_type@ is Coordinator {
                    f@.tree().id == old(table).coordinator_cnt
                } else {
                    core_channels(kind, channel_num) < f@.tree().id < BROADCAST_ID
                }),
                Err(e) => e == (if core_kind(rf_kind@) is None {
                    SimError::UnknownRouting
                } else {
                    SimError::TooManyCoordinators
                }),
            },
    {
        let word = String::from_str(rf_kind);
        if word == String::from_str("default") {
            Ok(CoreFunction::DefaultFunction(DefaultFunction::new(node_type, table)?))
        } else if word == String::from_str("multi_tree") {
            Ok(
                CoreFunction::MultiTreeFunction(
                    MultiTreeFunction::new(node_type, channel_num, table)?,
                ),
            )
        } else if word == String::from_str("dynamic") {
            Ok(CoreFunction::DynamicFunction(DynamicFunction::new(node_type, channel_num, table)?))
        } else {
            Err(SimError::UnknownRouting)
        }
    }

    /// One cycle of the core; only a dynamic core heeds the neighbours that
    /// are gone.
    pub fn update(&mut self, option: Option<&UpdateOption>) -> (r: Result<(), SimError>)
        requires
            old(self)@.wf(),
        ensures
            final(self)@.wf(),
            exists|emit: bool, pick: u32, probes: Seq<bool>, picks: Seq<u32>|
                (final(self)@, error_of(r)) == old(self)@.update(
                    emit,
                    pick,
                    probes,
                    lost_of(option),
                    picks,
                ),
    {
        match self {
            CoreFunction::DefaultFunction(rf) => {
                let ghost pre = rf@;
                let r = rf.update();
                proof {
                    let (emit, pick, picks) = choose|emit: bool, pick: u32, picks: Seq<u32>|
                        (rf@, error_of(r)) == pre.update(emit, pick, picks);
                    assert((final(self)@, error_of(r)) == old(self)@.update(
                        emit,
                        pick,
                        Seq::empty(),
                        lost_of(option),
                        picks,
                    ));
                }
                r
            },
            CoreFunction::MultiTreeFunction(rf) => {
                let ghost pre = rf@;
                let r = rf.update();
                proof {
                    let (emit, pick, picks) = choose|emit: bool, pick: u32, picks: Seq<u32>|
                        (rf@, error_of(r)) == pre.update(emit, pick, picks);
                    assert((final(self)@, error_of(r)) == old(self)@.update(
                        emit,
                        pick,
                        Seq::empty(),
                        lost_of(option),
                        picks,
                    ));
                }
                r
            },
            CoreFunction::DynamicFunction(rf) => {
                let ghost pre = rf@;
                let r = rf.update(option);
                proof {
                    let (emit, pick, probes, picks) = choose|
                        emit: bool,
                        pick: u32,
                        probes: Seq<bool>,
                        picks: Seq<u32>,
                    |
                        (rf@, error_of(r)) == pre.update(
                            emit,
                            pick,
                            probes,
                            lost_of(option),
                            picks,
                        );
                    assert((final(self)@, error_of(r)) == old(self)@.update(
                        emit,
                        pick,
                        probes,
                        lost_of(option),
                        picks,
                    ));
                }
                r
            },
        }
    }

    /// One cycle of the core, with the numbers that decide its choices.
    pub fn update_with(
        &mut self,
        emit: bool,
        pick: u32,
        probes: &Vec<bool>,
        option: Option<&UpdateOption>,
        picks: &Vec<u32>,
    ) -> (r: Result<(), SimError>)
        requires
            old(self)@.wf(),
        ensures
            final(self)@.wf(),
            (final(self)@, error_of(r)) == old(self)@.update(
                emit,
                pick,
                probes@,
                lost_of(option),
                picks@,
            ),
    {
        match self {
            CoreFunction::DefaultFunction(rf) => rf.update_with(emit, pick, picks),
            CoreFunction::MultiTreeFunction(rf) => rf.update_with(emit, pick, picks),
            CoreFunction::DynamicFunction(rf) => rf.update_with(emit, pick, probes, option, picks),
        }
    }

    /// Queues a message of the node's user for sending.
    pub fn push_new_packet(&mut self, packet: &InjectionPacket, table: &VidTable) -> (r: Result<
        (),
        SimError,
    >)
        requires
            old(self)@.wf(),
            table.wf(),
        ensures
            final(self)@.wf(),
            if !table.vids().contains_key(packet.dest_id@) {
                r == Err::<(), SimError>(SimError::UnknownNode) && final(self)@ == old(self)@
            } else {
                let (t, e) = old(self)@.tree().push_new(
                    packet.message@,
                    table.vids()[packet.dest_id@],
                );
                final(self)@ == old(self)@.with_tree(t) && error_of(r) == e
            },
    {
        match self {
            CoreFunction::DefaultFunction(rf) => rf.push_new_packet(packet, table),
            CoreFunction::MultiTreeFunction(rf) => rf.push_new_packet(packet, table),
            CoreFunction::DynamicFunction(rf) => rf.push_new_packet(packet, table),
        }
    }

    /// Takes the packet at the head of the queue and dresses it for the
    /// network.
    pub fn send_packet(&mut self, table: &VidTable) -> (r: Result<Option<Packet>, SimError>)
        requires
            old(self)@.wf(),
        ensures
            final(self)@.wf(),
            if old(self)@.tree().send.len() == 0 {
                r == Ok::<Option<Packet>, SimError>(None) && final(self)@ == old(self)@
            } else {
                &&& final(self)@ == old(self)@.with_tree(
                    TreeView {
                        send: old(self)@.tree().send.subrange(
                            1,
                            old(self)@.tree().send.len() as int,
                        ),
                        ..old(self)@.tree()
                    },
                )
                &&& match r {
                    Ok(Some(p)) => old(self)@.tree().outgoing(table.pids()) == Ok::<
                        PacketView,
                        SimError,
                    >(p@),
                    Ok(None) => false,
                    Err(e) => old(self)@.tree().outgoing(table.pids()) == Err::<
                        PacketView,
                        SimError,
                    >(e),
                }
            },
    {
        match self {
            CoreFunction::DefaultFunction(rf) => rf.send_packet(table),
            CoreFunction::MultiTreeFunction(rf) => rf.send_packet(table),
            CoreFunction::DynamicFunction(rf) => rf.send_packet(table),
        }
    }

    /// Takes a packet from the network into the queue of packets to work
    /// off.
    pub fn receive_packet(&mut self, packet: &Packet, table: &VidTable) -> (r: Result<(), SimError>)
        requires
            old(self)@.wf(),
            table.wf(),
        ensures
            final(self)@.wf(),
            match RoutingPacketView::from_general(packet@, table.vids()) {
                Ok(p) => r is Ok && final(self)@ == old(self)@.with_tree(
                    TreeView { received: old(self)@.tree().received.push(p), ..old(self)@.tree() },
                ),
                Err(e) => r == Err::<(), SimError>(e) && final(self)@ == old(self)@,
            },
    {
        match self {
            CoreFunction::DefaultFunction(rf) => rf.receive_packet(packet, table),
            CoreFunction::MultiTreeFunction(rf) => rf.receive_packet(packet, table),
            CoreFunction::DynamicFunction(rf) => rf.receive_packet(packet, table),
        }
    }

    /// Passes on a flit of a packet that is cut through this node.
    pub fn forward_flit(&mut self, flit: &Flit, table: &VidTable) -> (r: Result<Flit, SimError>)
        requires
            old(self)@.wf(),
            table.wf(),
        ensures
            final(self)@.wf(),
            ({
                let (s, out) = old(self)@.forward(flit@, table.vids(), table.pids());
                final(self)@ == s && match r {
                    Ok(f) => out == Ok::<FlitView, SimError>(f@),
                    Err(e) => out == Err::<FlitView, SimError>(e),
                }
            }),
    {
        match self {
            CoreFunction::DefaultFunction(rf) => rf.forward_flit(flit, table),
            CoreFunction::MultiTreeFunction(rf) => rf.forward_flit(flit, table),
            CoreFunction::DynamicFunction(rf) => rf.forward_flit(flit, table),
        }
    }

    /// The number of packets that await their working off.
    pub fn pending_packets(&self) -> (n: usize)
        ensures
            n == self@.tree().received.len(),
    {
        match self {
            CoreFunction::DefaultFunction(rf) => rf.tree.received_packet_buffer.len(),
            CoreFunction::MultiTreeFunction(rf) => rf.received_packet_buffer.len(),
            CoreFunction::DynamicFunction(rf) => rf.tree.received_packet_buffer.len(),
        }
    }

    pub fn get_id(&self) -> (id: u32)
        ensures
            id == self@.tree().id,
    {
        match self {
            CoreFunction::DefaultFunction(rf) => rf.get_id(),
            CoreFunction::MultiTreeFunction(rf) => rf.id,
            CoreFunction::DynamicFunction(rf) => rf.tree.id,
        }
    }

    pub fn is_joined(&self) -> (b: bool)
        ensures
            b == self@.tree().is_joined(),
    {
        match self {
            CoreFunction::DefaultFunction(rf) => rf.is_joined(),
            CoreFunction::MultiTreeFunction(rf) => rf.is_joined(),
            CoreFunction::DynamicFunction(rf) => rf.is_joined(),
        }
    }

    /// The message that a packet carries.
    pub fn get_message(&self, packet: &Packet, table: &VidTable) -> (r: Result<String, SimError>)
        requires
            table.wf(),
        ensures
            match r {
                Ok(m) => message_of(packet@, table.vids()) == Ok::<Seq<char>, SimError>(m@),
                Err(e) => message_of(packet@, table.vids()) == Err::<Seq<char>, SimError>(e),
            },
    {
        let p = RoutingPacket::from_general(packet, table)?;
        Ok(p.message)
    }

    /// The parent on each channel, where there is one.
    pub fn get_parent_id(&self) -> (r: Vec<Option<u32>>)
        requires
            self@.wf(),
        ensures
            r@ == self@.tree().parents(),
    {
        match self {
            CoreFunction::DefaultFunction(f) => {
                let mut v: Vec<Option<u32>> = Vec::new();
                v.push(f.get_parent_id());
                assert(v@ =~= self@.tree().parents());
                v
            },
            CoreFunction::MultiTreeFunction(f) => f.get_parent_id(),
            CoreFunction::DynamicFunction(f) => f.get_parent_id(),
        }
    }
}

} // verus!
