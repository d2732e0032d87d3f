use vstd::prelude::*;
use vstd::string::*;
use std::collections::HashMap;
use crate::error::SimError;
use crate::hardware::state::{NodeState, State};
use crate::hardware::switching::Switching;
use crate::hardware::{backoff_allowed, Hardware, HardwareView};
use crate::log::Log;
use crate::network::core_functions::dynamic::lost_of;
use crate::network::core_functions::multi_tree::error_of;
use crate::random::{random_flags, random_picks, random_ratio, random_u32};
use crate::network::core_functions::packets::{InjectionPacket, InjectionPacketView};
use crate::hardware::blocking::BlockingView;
use crate::hardware::constants::BROADCAST_ID;
use crate::network::core_functions::{
    can_make_core, core_channels, core_counter_after, core_kind, CoreKind, CoreView,
};
use crate::network::flit::{Flit, FlitView};
use crate::network::option::UpdateOption;
use crate::network::vid::{VidTable, VidTableView};
use crate::network::{Network, NetworkView, Packets};
use crate::sim::node_type::{NodeType, NodeTypeView};

verus! {

pub type NodeId = String;

pub type CycleNum = u32;

/// A node: its link, its network layer, and the messages that its user
/// sends, each in its cycle.
#[derive(Debug)]
pub struct Node {
    pub id: NodeId,
    pub node_type: NodeType,
    pub network: Network,
    pub hardware: Hardware,
    pub packets: HashMap<CycleNum, InjectionPacket>,
    pub cur_cycle: u32,
}

pub struct NodeView {
    pub id: Seq<char>,
    pub node_type: NodeTypeView,
    pub network: NetworkView,
    pub hardware: HardwareView,
    pub packets: Map<u32, InjectionPacketView>,
    pub cur_cycle: u32,
}

impl View for Node {
    type V = NodeView;

    open spec fn view(&self) -> NodeView {
        NodeView {
            id: self.id@,
            node_type: self.node_type@,
            network: self.network@,
            hardware: self.hardware@,
            packets: self.packets@.map_values(|p: InjectionPacket| p@),
            cur_cycle: self.cur_cycle,
        }
    }
}

impl DeepView for Node {
    type V = NodeView;

    open spec fn deep_view(&self) -> NodeView {
        self@
    }
}

/// The numbers that decide the choices of one node in one cycle: whether a
/// node that lacks a parent asks for one, the number that picks its
/// channel, whether each reconfiguration under way asks again, the numbers
/// that pick the channels of the packets worked off, and the extra wait of
/// a resending link.
#[derive(Debug)]
pub struct NodeDraws {
    pub emit: bool,
    pub pick: u32,
    pub probes: Vec<bool>,
    pub picks: Vec<u32>,
    pub backoff: u32,
}

pub struct Draws {
    pub emit: bool,
    pub pick: u32,
    pub probes: Seq<bool>,
    pub picks: Seq<u32>,
    pub backoff: u32,
}

impl View for NodeDraws {
    type V = Draws;

    open spec fn view(&self) -> Draws {
        Draws {
            emit: self.emit,
            pick: self.pick,
            probes: self.probes@,
            picks: self.picks@,
            backoff: self.backoff,
        }
    }
}

impl DeepView for NodeDraws {
    type V = Draws;

    open spec fn deep_view(&self) -> Draws {
        self@
    }
}

impl NodeView {
    pub open spec fn wf(self) -> bool {
        self.network.wf()
    }

    /// A node as it starts, with the routing id `vid`: nothing sent,
    /// nothing received, the link idle.
    pub open spec fn fresh(
        id: Seq<char>,
        node_type: NodeTypeView,
        kind: CoreKind,
        vc_num: u8,
        switching: Switching,
        packets: Map<u32, InjectionPacketView>,
        vid: u32,
    ) -> NodeView {
        NodeView {
            id,
            node_type,
            network: NetworkView {
                id,
                cur_cycle: 0,
                switching,
                core: CoreView::initial(kind, node_type, vc_num, vid),
                sending: Seq::new(vc_num as nat, |c: int| Seq::<FlitView>::empty()),
                receiving: Seq::new(vc_num as nat, |c: int| Seq::<FlitView>::empty()),
                received: Map::<Seq<char>, Seq<FlitView>>::empty(),
                send_history: (false, FlitView::Empty),
                channel_num: vc_num,
            },
            hardware: HardwareView {
                id,
                state: NodeState { state: State::Idle, resend_times: 0 },
                retransmission_buffer: FlitView::Empty,
                ack_buffer: FlitView::Empty,
                received_msg_is_broadcast: false,
                received_msg_is_ack: false,
                blocking: BlockingView {
                    switching,
                    is_receiving: false,
                    receiving_packet_prev_id: Seq::empty(),
                    receiving_packet_id: 0,
                    cur_flit_num: 0,
                },
            },
            packets,
            cur_cycle: 0,
        }
    }

    /// The flit that the node puts on the link: the flit that awaits its
    /// acknowledgement. A flit for every node awaits none and is sent once.
    pub open spec fn send_flit(self) -> (NodeView, Result<FlitView, SimError>) {
        let f = self.hardware.retransmission_buffer;
        if f is Empty {
            (self, Err(SimError::EmptyFlit))
        } else if f.is_broadcast() {
            (
                NodeView {
                    hardware: HardwareView {
                        retransmission_buffer: FlitView::Empty,
                        ..self.hardware
                    },
                    ..self
                },
                Ok(f),
            )
        } else {
            (self, Ok(f))
        }
    }

    /// A flit reaches the node: the link turns to receiving and decides
    /// whether the flit is taken; a flit that is taken goes on to the
    /// network layer. An acknowledgement that answers nothing is dropped.
    pub open spec fn receive(
        self,
        packets: Packets,
        f: FlitView,
        vids: Map<Seq<char>, u32>,
        pids: Map<u32, Seq<char>>,
    ) -> (NodeView, Packets, Option<SimError>) {
        let receiving = HardwareView {
            state: NodeState {
                state: State::Receiving,
                resend_times: self.hardware.state.resend_times,
            },
            ..self.hardware
        };
        let (hardware, out) = receiving.receive(f);
        let s = NodeView { hardware, ..self };
        match out {
            Ok(Some(g)) => {
                let (network, log, e) = self.network.receive(packets, g, 0, vids, pids);
                (NodeView { network, ..s }, log, e)
            },
            Ok(None) => (s, packets, None),
            Err(e) => if e == SimError::AckMismatch {
                (s, packets, None)
            } else {
                (s, packets, Some(e))
            },
        }
    }

    /// The node after the network layer's part of a cycle: a link with
    /// nothing pending takes the next flit from the network layer, and moves
    /// on by one cycle.
    pub open spec fn after_network(self, packets: Packets, backoff: u32) -> (NodeView, Packets) {
        if self.hardware.retransmission_buffer is Empty {
            let (network, log, out) = self.network.send_flit(packets);
            let hardware = match out {
                Some(f) => HardwareView { retransmission_buffer: f, ..self.hardware },
                None => self.hardware,
            };
            (NodeView { network, hardware: hardware.step(backoff), ..self }, log)
        } else {
            (NodeView { hardware: self.hardware.step(backoff), ..self }, packets)
        }
    }

    /// One cycle of the node: the user's message for this cycle enters the
    /// network layer, which then has its cycle; then the link has its own.
    /// The first error ends the cycle.
    pub open spec fn update(
        self,
        packets: Packets,
        cur_cycle: u32,
        emit: bool,
        pick: u32,
        probes: Seq<bool>,
        lost: Seq<u32>,
        picks: Seq<u32>,
        backoff: u32,
        vids: Map<Seq<char>, u32>,
        pids: Map<u32, Seq<char>>,
    ) -> (NodeView, Packets, Option<SimError>) {
        let s0 = NodeView { cur_cycle, ..self };
        let injected: (NetworkView, Option<SimError>) = if self.packets.contains_key(cur_cycle) {
            let p = self.packets[cur_cycle];
            if !vids.contains_key(p.dest_id) {
                (self.network, Some(SimError::UnknownNode))
            } else {
                let (t, e) = self.network.core.tree().push_new(p.message, vids[p.dest_id]);
                (NetworkView { core: self.network.core.with_tree(t), ..self.network }, e)
            }
        } else {
            (self.network, None)
        };
        if injected.1 is Some {
            (NodeView { network: injected.0, ..s0 }, packets, injected.1)
        } else {
            let (network, log, e) = injected.0.update(
                packets,
                cur_cycle,
                emit,
                pick,
                probes,
                lost,
                picks,
                vids,
                pids,
            );
            let s1 = NodeView { network, ..s0 };
            if e is Some {
                (s1, log, e)
            } else {
                let (s2, log2) = s1.after_network(log, backoff);
                (s2, log2, None)
            }
        }
    }
}

impl NodeView {
    /// One cycle of the node, with the numbers that decide its choices.
    pub open spec fn update_by(
        self,
        packets: Packets,
        cur_cycle: u32,
        d: Draws,
        lost: Seq<u32>,
        vids: Map<Seq<char>, u32>,
        pids: Map<u32, Seq<char>>,
    ) -> (NodeView, Packets, Option<SimError>) {
        self.update(
            packets,
            cur_cycle,
            d.emit,
            d.pick,
            d.probes,
            lost,
            d.picks,
            d.backoff,
            vids,
            pids,
        )
    }

    /// Whether the extra wait among the numbers is one that the link may
    /// draw.
    pub open spec fn may_draw(self, d: Draws) -> bool {
        self.hardware.draws_backoff() ==> backoff_allowed(
            self.hardware.state.resend_times,
            d.backoff,
        )
    }
}

impl Node {
    pub open spec fn wf(&self) -> bool {
        self.network.wf()
    }

    /// Draws the numbers that decide the node's choices in a cycle: it asks
    /// for a parent with a chance of one in ten, each reconfiguration asks
    /// again with the same chance, and a resending link draws its extra
    /// wait.
    pub fn draw(&self) -> (d: NodeDraws)
        requires
            self.wf(),
        ensures
            d.backoff <= 0x8000_0000,
            self@.may_draw(d@),
            d.probes@.len() == self@.network.channel_num,
            d.picks@.len() == self@.network.core.tree().received.len(),
    {
        NodeDraws {
            emit: random_ratio(1, 10),
            pick: random_u32(),
            probes: random_flags(self.network.channel_num),
            picks: random_picks(self.network.core.pending_packets()),
            backoff: self.hardware.draw_backoff(),
        }
    }

    /// Makes a node and enters it in the id table.
    pub fn new(
        id: &str,
        vc_num: u8,
        switching: &Switching,
        rf_kind: &str,
        node_type: &NodeType,
        packets: HashMap<CycleNum, InjectionPacket>,
        table: &mut VidTable,
    ) -> (r: Result<Self, SimError>)
        requires
            vc_num > 0,
            old(table).wf(),
        ensures
            final(table).wf(),
            r is Ok <==> can_make_core(rf_kind@, node_type@, vc_num, old(table).coordinator_cnt),
            final(table).coordinator_cnt == core_counter_after(
                rf_kind@,
                node_type@,
                vc_num,
                old(table).coordinator_cnt,
            ),
            match r {
                Ok(n) => {
                    &&& n.wf()
                    &&& n.packets == packets
                    &&& core_kind(rf_kind@) matches Some(kind) && n@ == NodeView::fresh(
                        id@,
                        node_type@,
                        kind,
                        vc_num,
                        *switching,
                        packets@.map_values(|p: InjectionPacket| p@),
                        n@.network.core.tree().id,
                    ) && (if node_type@ is Coordinator {
                        n@.network.core.tree().id == old(table).coordinator_cnt
                    } else {
                        core_channels(kind, vc_num) < n@.network.core.tree().id < BROADCAST_ID
                    })
                    &&& final(table)@ == (VidTableView {
                        coordinator_cnt: final(table).coordinator_cnt,
                        ..old(table)@
                    }).tied(n@.network.core.tree().id, id@)
                },
                Err(e) => final(table).pids() == old(table).pids() && final(table).vids() == old(
                    table,
                ).vids() && e == (if core_kind(rf_kind@) is None {
                    SimError::UnknownRouting
                } else {
                    SimError::TooManyCoordinators
                }),
            },
    {
        let network = Network::new(id, vc_num, switching, rf_kind, node_type, table)?;
        Ok(
            Self {
                id: String::from_str(id),
                node_type: node_type.clone(),
                network,
                hardware: Hardware::new(String::from_str(id), *switching),
                packets,
                cur_cycle: 0,
            },
        )
    }

    /// Hands out the flit that the node puts on the link.
    pub fn send_flit(&mut self) -> (r: Result<Flit, SimError>)
        ensures
            final(self).network == old(self).network,
            final(self)@ == old(self)@.send_flit().0,
            match r {
                Ok(f) => old(self)@.send_flit().1 == Ok::<FlitView, SimError>(f@),
                Err(e) => old(self)@.send_flit().1 == Err::<FlitView, SimError>(e),
            },
    {
        let x = self.hardware.retransmission_buffer.clone();
        if x.is_empty() {
            return Err(SimError::EmptyFlit);
        }
        if x.is_broadcast() {
            self.hardware.retransmission_buffer.clear();
        }
        Ok(x)
    }

    /// Hands out the acknowledgement that awaits its sending, or an empty
    /// flit.
    pub fn send_ack(&mut self) -> (r: Result<Flit, SimError>)
        ensures
            r is Ok,
            final(self).network == old(self).network,
            old(self)@.hardware.ack_buffer is Ack ==> r.unwrap()@ == old(self)@.hardware.ack_buffer
                && final(self)@ == (NodeView {
                hardware: HardwareView { ack_buffer: FlitView::Empty, ..old(self)@.hardware },
                ..old(self)@
            }),
            !(old(self)@.hardware.ack_buffer is Ack) ==> r.unwrap()@ is Empty && final(self)@
                == old(self)@,
    {
        self.hardware.send_ack()
    }

    /// One cycle of the node, with numbers drawn for its choices.
    pub fn update(
        &mut self,
        cur_cycle: u32,
        option: Option<&UpdateOption>,
        table: &VidTable,
        log: &mut Log,
    ) -> (r: Result<(), SimError>)
        requires
            old(self).wf(),
            old(log).wf(),
            table.wf(),
        ensures
            final(self).wf(),
            final(log).wf(),
            final(log).collisions() == old(log).collisions(),
            exists|d: Draws|
                old(self)@.may_draw(d) && (final(self)@, final(log).packets(), error_of(r)) == old(
                    self,
                )@.update_by(
                    old(log).packets(),
                    cur_cycle,
                    d,
                    lost_of(option),
                    table.vids(),
                    table.pids(),
                ),
    {
        let draws = self.draw();
        self.update_with(cur_cycle, option, &draws, table, log)
    }

    /// One cycle of the node, with the numbers that decide its choices.
    pub fn update_with(
        &mut self,
        cur_cycle: u32,
        option: Option<&UpdateOption>,
        draws: &NodeDraws,
        table: &VidTable,
        log: &mut Log,
    ) -> (r: Result<(), SimError>)
        requires
            old(self).wf(),
            old(log).wf(),
            table.wf(),
            draws.backoff <= 0x8000_0000,
        ensures
            final(self).wf(),
            final(log).wf(),
            final(log).collisions() == old(log).collisions(),
            (final(self)@, final(log).packets(), error_of(r)) == old(self)@.update_by(
                old(log).packets(),
                cur_cycle,
                draws@,
                lost_of(option),
                table.vids(),
                table.pids(),
            ),
    {
        self.cur_cycle = cur_cycle;
        assert(self@.packets.contains_key(cur_cycle) == self.packets@.contains_key(cur_cycle));
        if let Some(packet) = self.packets.get(&cur_cycle) {
            assert(self@.packets[cur_cycle] == packet@);
            self.network.send_new_packet(packet, table)?;
        }
        self.network.update_with(
            cur_cycle,
            draws.emit,
            draws.pick,
            &draws.probes,
            option,
            &draws.picks,
            table,
            log,
        )?;
        if self.hardware.retransmission_buffer.is_empty() {
            if let Some(flit) = self.network.send_flit(log) {
                let _ = self.hardware.send_flit(&flit);
            }
        }
        self.hardware.update_state_with(draws.backoff);
        Ok(())
    }

    /// Takes a flit that the link delivers. The link must be idle or
    /// waiting: it turns to receiving.
    pub fn receive_flit(&mut self, flit: &Flit, table: &VidTable, log: &mut Log) -> (r: Result<
        (),
        SimError,
    >)
        requires
            old(self).wf(),
            old(log).wf(),
            table.wf(),
            old(self)@.hardware.state.state is Idle || old(self)@.hardware.state.state is Waiting,
        ensures
            final(self).wf(),
            final(log).wf(),
            final(log).collisions() == old(log).collisions(),
            (final(self)@, final(log).packets(), error_of(r)) == old(self)@.receive(
                old(log).packets(),
                flit@,
                table.vids(),
                table.pids(),
            ),
    {
        self.hardware.set_state(&State::Receiving);
        match self.hardware.receive_flit(flit) {
            Ok(Some(flit)) => self.network.receive_flit(&flit, 0, table, log),
            Ok(None) => Ok(()),
            Err(SimError::AckMismatch) => Ok(()),
            Err(e) => Err(e),
        }
    }

    /// Switching a node off is not modelled: nothing changes.
    pub fn shutdown(&mut self)
        ensures
            final(self)@ == old(self)@,
    {
    }

    /// Switching a node on again is not modelled: nothing changes.
    pub fn reboot(&mut self)
        ensures
            final(self)@ == old(self)@,
    {
    }
}

} // verus!
