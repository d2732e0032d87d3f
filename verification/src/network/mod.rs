pub mod core_functions;
pub mod flit;
pub mod flit_buffer;
pub mod option;
pub mod vid;

use vstd::prelude::*;
use vstd::string::*;
use crate::error::SimError;
use crate::hardware::switching::Switching;
use crate::log::{
    fresh_entry, post_new_packet_log, update_packet_log, updated_entry, Log, NewPacketLogInfo,
    NewPacketLogInfoView, PacketLogView, UpdatePacketLogInfo, UpdatePacketLogInfoView,
};
use crate::network::core_functions::dynamic::lost_of;
use crate::network::core_functions::multi_tree::{error_of, TreeView};
use crate::network::core_functions::packets::{
    InjectionPacket, Packet, PacketView, RoutingPacketView,
};
use crate::hardware::constants::BROADCAST_ID;
use crate::network::core_functions::{
    can_make_core, core_channels, core_counter_after, core_kind, message_of, CoreFunction,
    CoreView,
};
use crate::network::flit::{opt_str_view, packet_to_flits, spec_packet_to_flits, Flit, FlitView};
use crate::network::flit_buffer::{
    assembled, assembles, bucket_key, dedup, stable_sort, FlitBuffer, ReceivedFlitsBuffer,
};
use crate::network::option::UpdateOption;
use crate::network::vid::{add_to_vid_table, get_pid, VidTable, VidTableView};
use crate::sim::node_type::NodeType;
use crate::utils::{decimal, u32_to_string};

verus! {

/// The queues of the channels, as sequences of flits.
pub open spec fn queues(buffers: Seq<FlitBuffer>) -> Seq<Seq<FlitView>> {
    Seq::new(buffers.len(), |c: int| buffers[c]@)
}

/// The id under which the log keeps a packet: the name of its source, an
/// underscore, and the packet's number in decimal digits.
pub open spec fn log_key(source: Seq<char>, packet_id: u32) -> Seq<char> {
    source + "_"@ + decimal(packet_id as nat)
}

/// The first channel from `from` on whose queue holds a flit, or the number
/// of channels where none does.
pub open spec fn first_waiting(sending: Seq<Seq<FlitView>>, from: int) -> int
    decreases sending.len() - from,
{
    if from < 0 || from >= sending.len() {
        sending.len() as int
    } else if sending[from].len() > 0 {
        from
    } else {
        first_waiting(sending, from + 1)
    }
}

/// The network layer of a node: the routing core, the queues of flits to
/// send and to pass on, one of each for each channel, and the flits that
/// await the rest of their packet.
#[derive(Debug)]
pub struct Network {
    pub id: String,
    pub cur_cycle: u32,
    pub switching: Switching,
    pub core: CoreFunction,
    pub sending_flit_buffer: Vec<FlitBuffer>,
    pub receiving_flit_buffer: Vec<FlitBuffer>,
    pub received_flits_buffer: ReceivedFlitsBuffer,
    /// The flit sent last, and whether more flits of its packet follow.
    pub send_history: (bool, Flit),
    pub channel_num: u8,
}

pub struct NetworkView {
    pub id: Seq<char>,
    pub cur_cycle: u32,
    pub switching: Switching,
    pub core: CoreView,
    pub sending: Seq<Seq<FlitView>>,
    pub receiving: Seq<Seq<FlitView>>,
    pub received: Map<Seq<char>, Seq<FlitView>>,
    pub send_history: (bool, FlitView),
    pub channel_num: u8,
}

impl View for Network {
    type V = NetworkView;

    open spec fn view(&self) -> NetworkView {
        NetworkView {
            id: self.id@,
            cur_cycle: self.cur_cycle,
            switching: self.switching,
            core: self.core@,
            sending: queues(self.sending_flit_buffer@),
            receiving: queues(self.receiving_flit_buffer@),
            received: self.received_flits_buffer@,
            send_history: (self.send_history.0, self.send_history.1@),
            channel_num: self.channel_num,
        }
    }
}

pub type Packets = Map<Seq<char>, PacketLogView>;

impl NetworkView {
    pub open spec fn wf(self) -> bool {
        &&& self.core.wf()
        &&& self.channel_num > 0
        &&& self.sending.len() == self.channel_num
        &&& self.receiving.len() == self.channel_num
    }

    /// The queue that a channel's flits go through: the channel's own, or
    /// the first where the channel does not exist.
    pub open spec fn lane(self, channel_id: u8) -> int {
        if channel_id < self.channel_num {
            channel_id as int
        } else {
            0
        }
    }

    /// The queue that the next flit is taken from: that of the packet under
    /// way, if the flit sent last was not the last of its packet; else the
    /// first queue that holds a flit, or the first queue of all.
    pub open spec fn select_channel(self) -> int {
        if !(self.send_history.1 is Empty) && self.send_history.0 {
            self.lane(self.send_history.1.channel_id().unwrap())
        } else if first_waiting(self.sending, 0) < self.sending.len() {
            first_waiting(self.sending, 0)
        } else {
            0
        }
    }

    /// What the log learns from a flit that this node sends or takes in:
    /// the cycle of sending from a header at its source, the cycle of
    /// arrival from the last flit at its destination, and this node as a
    /// step of the route from a header.
    pub open spec fn flit_update(self, f: FlitView) -> UpdatePacketLogInfoView {
        let send_init = f.source_id() == Some(self.id) && f is Header;
        let is_delivered = f.dest_id() == Some(self.id) && f.is_last();
        UpdatePacketLogInfoView {
            send_cycle: if send_init {
                Some(self.cur_cycle)
            } else {
                None
            },
            last_receive_cycle: if is_delivered {
                Some(self.cur_cycle)
            } else {
                None
            },
            route_info: if f is Header {
                Some(self.id)
            } else {
                None
            },
            is_delivered: Some(is_delivered),
            flit_log: None,
        }
    }

    /// The log after a flit was sent or taken in; an empty flit, or a flit
    /// of a packet without entry, leaves it as it is.
    pub open spec fn log_flit(self, packets: Packets, f: FlitView) -> Packets {
        let key = log_key(f.source_id().unwrap(), f.packet_id().unwrap());
        if f is Empty {
            packets
        } else if packets.contains_key(key) {
            packets.insert(key, updated_entry(packets[key], self.flit_update(f)))
        } else {
            packets
        }
    }

    /// The entry that a packet gets when this node makes it.
    pub open spec fn packet_entry(self, p: PacketView, message: Seq<char>) -> NewPacketLogInfoView {
        NewPacketLogInfoView {
            packet_id: log_key(p.source_id, p.packet_id),
            from_id: p.source_id,
            dest_id: p.dest_id,
            flits_len: p.flits_len() as u32,
            message,
            channel_id: p.channel_id,
        }
    }

    /// The next flit leaves its queue: the log learns of it, and it is
    /// remembered as the flit sent last.
    pub open spec fn send_flit(self, packets: Packets) -> (NetworkView, Packets, Option<FlitView>) {
        let c = self.select_channel();
        if self.sending[c].len() == 0 {
            (self, packets, None)
        } else {
            let f = self.sending[c][0];
            (
                NetworkView {
                    sending: self.sending.update(
                        c,
                        self.sending[c].subrange(1, self.sending[c].len() as int),
                    ),
                    send_history: (!f.is_last(), f),
                    ..self
                },
                self.log_flit(packets, f),
                Some(f),
            )
        }
    }

    /// The flit at the head of a queue of flits to pass on goes through the
    /// routing core into the queue of its channel's flits to send. A flit
    /// that the core refuses is lost.
    pub open spec fn forward_one(self, c: int, vids: Map<Seq<char>, u32>, pids: Map<u32, Seq<char>>) -> (
        NetworkView,
        Option<SimError>,
    ) {
        if self.receiving[c].len() == 0 {
            (self, None)
        } else {
            let f = self.receiving[c][0];
            let rest = self.receiving[c].subrange(1, self.receiving[c].len() as int);
            let (core, out) = self.core.forward(f, vids, pids);
            let s = NetworkView { receiving: self.receiving.update(c, rest), core, ..self };
            match out {
                Err(e) => (s, Some(e)),
                Ok(g) => {
                    let lane = s.lane(g.channel_id().unwrap());
                    (
                        NetworkView { sending: s.sending.update(lane, s.sending[lane].push(g)), ..s },
                        None,
                    )
                },
            }
        }
    }

    /// `forward_one` on each of the first `n` channels, up to the first
    /// error.
    pub open spec fn forward_each(
        self,
        n: int,
        vids: Map<Seq<char>, u32>,
        pids: Map<u32, Seq<char>>,
    ) -> (NetworkView, Option<SimError>)
        decreases n,
    {
        if n <= 0 {
            (self, None)
        } else {
            let (s, e) = self.forward_each(n - 1, vids, pids);
            if e is Some {
                (s, e)
            } else {
                s.forward_one(n - 1, vids, pids)
            }
        }
    }

    /// `forward_one` on a channel until its queue is empty, or up to the
    /// first error.
    pub open spec fn forward_all(
        self,
        c: int,
        vids: Map<Seq<char>, u32>,
        pids: Map<u32, Seq<char>>,
    ) -> (NetworkView, Option<SimError>)
        decreases self.receiving[c].len(),
        when 0 <= c < self.receiving.len() && self.sending.len() == self.receiving.len()
            && self.channel_num == self.receiving.len()
    {
        if self.receiving[c].len() == 0 {
            (self, None)
        } else {
            let (s, e) = self.forward_one(c, vids, pids);
            if e is Some {
                (s, e)
            } else {
                s.forward_all(c, vids, pids)
            }
        }
    }

    /// A flit joins the flits of its packet. With the last flit the packet
    /// is put together, if its flits make one up, and handed to the routing
    /// core; the log learns of the flit then.
    pub open spec fn take_in(self, packets: Packets, f: FlitView, vids: Map<Seq<char>, u32>) -> (
        NetworkView,
        Packets,
        Option<SimError>,
    )
        recommends
            !(f is Empty),
    {
        let key = bucket_key(f.source_id().unwrap(), f.packet_id().unwrap());
        let held = if self.received.contains_key(key) {
            self.received[key]
        } else {
            Seq::empty()
        };
        let flits = stable_sort(dedup(held.push(f)));
        if !f.is_last() {
            (NetworkView { received: self.received.insert(key, held.push(f)), ..self }, packets, None)
        } else if !assembles(flits) {
            (NetworkView { received: self.received.insert(key, flits), ..self }, packets, None)
        } else {
            let s = NetworkView { received: self.received.insert(key, Seq::empty()), ..self };
            match RoutingPacketView::from_general(assembled(flits), vids) {
                Err(e) => (s, packets, Some(e)),
                Ok(p) => (
                    NetworkView {
                        core: s.core.with_tree(
                            TreeView {
                                received: s.core.tree().received.push(p),
                                ..s.core.tree()
                            },
                        ),
                        ..s
                    },
                    self.log_flit(packets, f),
                    None,
                ),
            }
        }
    }

    /// A flit arrives from the link. An acknowledgement is no matter of the
    /// network layer. A flit for this node, or for every node, is taken in.
    /// A flit on its way through this node is taken in where packets are
    /// stored and forwarded; where they are cut through, it joins the
    /// channel's queue of flits to pass on, which is passed on in whole when
    /// the flit is the last of its packet. Any other flit is dropped.
    pub open spec fn receive(
        self,
        packets: Packets,
        f: FlitView,
        channel_id: u8,
        vids: Map<Seq<char>, u32>,
        pids: Map<u32, Seq<char>>,
    ) -> (NetworkView, Packets, Option<SimError>) {
        if f is Ack {
            (self, packets, None)
        } else if f is Empty {
            (self, packets, Some(SimError::EmptyFlit))
        } else if f.dest_id() == Some(self.id) || f.dest_id() == Some("broadcast"@) {
            self.take_in(packets, f, vids)
        } else if f.next_id() == Some(self.id) {
            if self.switching == Switching::StoreAndForward {
                self.take_in(packets, f, vids)
            } else {
                let c = self.lane(channel_id);
                let s = NetworkView {
                    receiving: self.receiving.update(c, self.receiving[c].push(f)),
                    ..self
                };
                if f.is_last() {
                    let (t, e) = s.forward_all(c, vids, pids);
                    (t, packets, e)
                } else {
                    (s, packets, None)
                }
            }
        } else {
            (self, packets, None)
        }
    }

    /// The packet at the head of the routing core's queue, if there is one,
    /// is entered in the log and cut into flits, which join the queue of
    /// its channel. A packet that cannot be dressed, or read again for the
    /// log, is lost.
    pub open spec fn emit(self, packets: Packets, vids: Map<Seq<char>, u32>, pids: Map<u32, Seq<char>>) -> (
        NetworkView,
        Packets,
        Option<SimError>,
    ) {
        let t = self.core.tree();
        if t.send.len() == 0 {
            (self, packets, None)
        } else {
            let s = NetworkView {
                core: self.core.with_tree(
                    TreeView { send: t.send.subrange(1, t.send.len() as int), ..t },
                ),
                ..self
            };
            match t.outgoing(pids) {
                Err(e) => (s, packets, Some(e)),
                Ok(p) => if p.data.len() > u32::MAX {
                    (s, packets, Some(SimError::Encode))
                } else {
                    match message_of(p, vids) {
                        Err(e) => (s, packets, Some(e)),
                        Ok(message) => {
                            let lane = s.lane(p.channel_id);
                            (
                                NetworkView {
                                    sending: s.sending.update(
                                        lane,
                                        s.sending[lane] + spec_packet_to_flits(p),
                                    ),
                                    ..s
                                },
                                packets.insert(
                                    log_key(p.source_id, p.packet_id),
                                    fresh_entry(s.packet_entry(p, message)),
                                ),
                                None,
                            )
                        },
                    }
                },
            }
        }
    }

    /// What follows the routing core's cycle in a cycle of the network
    /// layer: a packet is emitted; then, where packets are cut through, one
    /// flit of each channel is passed on.
    pub open spec fn after_core(
        self,
        packets: Packets,
        vids: Map<Seq<char>, u32>,
        pids: Map<u32, Seq<char>>,
    ) -> (NetworkView, Packets, Option<SimError>) {
        let (s, log, e) = self.emit(packets, vids, pids);
        if e is Some || s.switching != Switching::CutThrough {
            (s, log, e)
        } else {
            let (t, e2) = s.forward_each(s.channel_num as int, vids, pids);
            (t, log, e2)
        }
    }

    /// One cycle of the network layer.
    pub open spec fn update(
        self,
        packets: Packets,
        cur_cycle: u32,
        emit: bool,
        pick: u32,
        probes: Seq<bool>,
        lost: Seq<u32>,
        picks: Seq<u32>,
        vids: Map<Seq<char>, u32>,
        pids: Map<u32, Seq<char>>,
    ) -> (NetworkView, Packets, Option<SimError>) {
        let (core, e) = self.core.update(emit, pick, probes, lost, picks);
        let s = NetworkView { cur_cycle, core, ..self };
        if e is Some {
            (s, packets, e)
        } else {
            s.after_core(packets, vids, pids)
        }
    }
}

/// The names behind the parents of the channels, where parent and name
/// exist.
pub open spec fn parent_names(parents: Seq<Option<u32>>, pids: Map<u32, Seq<char>>) -> Seq<
    Option<Seq<char>>,
> {
    Seq::new(
        parents.len(),
        |c: int|
            match parents[c] {
                Some(v) => if pids.contains_key(v) {
                    Some(pids[v])
                } else {
                    None
                },
                None => None,
            },
    )
}

/// Names that may be absent, as mathematical values.
pub open spec fn opt_names(names: Seq<Option<String>>) -> Seq<Option<Seq<char>>> {
    Seq::new(names.len(), |i: int| opt_str_view(names[i]))
}

/// Once a flit is refused, the channels behind are left alone.
proof fn lemma_forward_each_stops(
    s: NetworkView,
    k: int,
    n: int,
    vids: Map<Seq<char>, u32>,
    pids: Map<u32, Seq<char>>,
)
    requires
        0 <= k <= n,
        s.forward_each(k, vids, pids).1 is Some,
    ensures
        s.forward_each(n, vids, pids) == s.forward_each(k, vids, pids),
    decreases n - k,
{
    if k < n {
        lemma_forward_each_stops(s, k, n - 1, vids, pids);
    }
}

fn empty_queues(n: u8) -> (v: Vec<FlitBuffer>)
    ensures
        queues(v@) == Seq::new(n as nat, |c: int| Seq::<FlitView>::empty()),
{
    let mut v: Vec<FlitBuffer> = Vec::new();
    let mut i: u8 = 0;
    while i < n
        invariant
            i <= n,
            v@.len() == i,
            forall|c: int| 0 <= c < i ==> (#[trigger] v@[c])@ == Seq::<FlitView>::empty(),
        decreases n - i,
    {
        v.push(FlitBuffer::new());
        i = i + 1;
    }
    assert(queues(v@) =~= Seq::new(n as nat, |c: int| Seq::<FlitView>::empty()));
    v
}

fn make_log_key(source: &str, packet_id: u32) -> (key: String)
    ensures
        key@ == log_key(source@, packet_id),
{
    let mut key = String::from_str(source);
    key.append("_");
    let digits = u32_to_string(packet_id);
    key.append(digits.as_str());
    key
}

impl Network {
    pub open spec fn wf(&self) -> bool {
        self@.wf() && self.received_flits_buffer.wf()
    }

    /// Makes the network layer of a node and enters the node, under the
    /// routing id of its core, in the id table.
    pub fn new(
        id: &str,
        vc_num: u8,
        switching: &Switching,
        rf_kind: &str,
        node_type: &NodeType,
        table: &mut VidTable,
    ) -> (r: Result<Self, SimError>)
        requires
            vc_num > 0,
            old(table).wf(),
        ensures
            final(table).wf(),
            r is Ok <==> can_make_core(rf_kind@, node_type@, vc_num, old(table).coordinator_cnt),
            final(table).coordinator_cnt == core_counter_after(
                rf_kind@,
                node_type@,
                vc_num,
                old(table).coordinator_cnt,
            ),
            match r {
                Ok(n) => {
                    &&& n.wf()
                    &&& core_kind(rf_kind@) matches Some(kind) && n@ == (NetworkView {
                        id: id@,
                        cur_cycle: 0,
                        switching: *switching,
                        core: CoreView::initial(kind, node_type@, vc_num, n@.core.tree().id),
                        sending: Seq::new(vc_num as nat, |c: int| Seq::<FlitView>::empty()),
                        receiving: Seq::new(vc_num as nat, |c: int| Seq::<FlitView>::empty()),
                        received: Map::<Seq<char>, Seq<FlitView>>::empty(),
                        send_history: (false, FlitView::Empty),
                        channel_num: vc_num,
                    }) && (if node_type@ is Coordinator {
                        n@.core.tree().id == old(table).coordinator_cnt
                    } else {
                        core_channels(kind, vc_num) < n@.core.tree().id < BROADCAST_ID
                    })
                    &&& final(table)@ == (VidTableView {
                        coordinator_cnt: final(table).coordinator_cnt,
                        ..old(table)@
                    }).tied(n@.core.tree().id, id@)
                },
                Err(e) => final(table).pids() == old(table).pids() && final(table).vids() == old(
                    table,
                ).vids() && e == (if core_kind(rf_kind@) is None {
                    SimError::UnknownRouting
                } else {
                    SimError::TooManyCoordinators
                }),
            },
    {
        let sending_flit_buffer = empty_queues(vc_num);
        let receiving_flit_buffer = empty_queues(vc_num);
        let core = CoreFunction::new(rf_kind, node_type, vc_num, table)?;
        let vid = core.get_id();
        add_to_vid_table(table, vid, id);
        Ok(
            Self {
                id: String::from_str(id),
                cur_cycle: 0,
                switching: *switching,
                core,
                sending_flit_buffer,
                receiving_flit_buffer,
                received_flits_buffer: ReceivedFlitsBuffer::new(),
                send_history: (false, Flit::Empty),
                channel_num: vc_num,
            },
        )
    }

    /// Takes the next flit to send from its queue.
    pub fn send_flit(&mut self, log: &mut Log) -> (r: Option<Flit>)
        requires
            old(self).wf(),
            old(log).wf(),
        ensures
            final(self).wf(),
            final(log).wf(),
            final(log).collisions() == old(log).collisions(),
            (final(self)@, final(log).packets(), r.deep_view()) == old(self)@.send_flit(
                old(log).packets(),
            ),
    {
        let channel_id = self.select_channel();
        let ghost before = self@;
        match self.sending_flit_buffer[channel_id as usize].pop() {
            Some(flit) => {
                assert(self@.sending =~= before.sending.update(
                    channel_id as int,
                    before.sending[channel_id as int].subrange(
                        1,
                        before.sending[channel_id as int].len() as int,
                    ),
                ));
                assert(flit@ == before.sending[channel_id as int][0]);
                self.log_flit(&flit, log);
                self.send_history = (!flit.is_last(), flit.clone());
                Some(flit)
            },
            None => {
                assert(self@.sending =~= before.sending);
                None
            },
        }
    }

    /// One cycle of the network layer: the routing core's cycle, a packet
    /// from the core's queue, and a flit of each channel passed on where
    /// packets are cut through.
    pub fn update(
        &mut self,
        cur_cycle: u32,
        option: Option<&UpdateOption>,
        table: &VidTable,
        log: &mut Log,
    ) -> (r: Result<(), SimError>)
        requires
            old(self).wf(),
            old(log).wf(),
            table.wf(),
        ensures
            final(self).wf(),
            final(log).wf(),
            final(log).collisions() == old(log).collisions(),
            exists|emit: bool, pick: u32, probes: Seq<bool>, picks: Seq<u32>|
                (final(self)@, final(log).packets(), error_of(r)) == old(self)@.update(
                    old(log).packets(),
                    cur_cycle,
                    emit,
                    pick,
                    probes,
                    lost_of(option),
                    picks,
                    table.vids(),
                    table.pids(),
                ),
    {
        self.cur_cycle = cur_cycle;
        let ghost before = self@.core;
        let r = self.core.update(option);
        let ghost (emit, pick, probes, picks) = choose|
            emit: bool,
            pick: u32,
            probes: Seq<bool>,
            picks: Seq<u32>,
        |
            (self@.core, error_of(r)) == before.update(
                emit,
                pick,
                probes,
                lost_of(option),
                picks,
            );
        let res = match r {
            Err(e) => Err(e),
            Ok(()) => self.after_core(table, log),
        };
        assert((self@, log.packets(), error_of(res)) == old(self)@.update(
            old(log).packets(),
            cur_cycle,
            emit,
            pick,
            probes,
            lost_of(option),
            picks,
            table.vids(),
            table.pids(),
        ));
        res
    }

    /// One cycle of the network layer, with the numbers that decide the
    /// routing core's choices.
    pub fn update_with(
        &mut self,
        cur_cycle: u32,
        emit: bool,
        pick: u32,
        probes: &Vec<bool>,
        option: Option<&UpdateOption>,
        picks: &Vec<u32>,
        table: &VidTable,
        log: &mut Log,
    ) -> (r: Result<(), SimError>)
        requires
            old(self).wf(),
            old(log).wf(),
            table.wf(),
        ensures
            final(self).wf(),
            final(log).wf(),
            final(log).collisions() == old(log).collisions(),
            (final(self)@, final(log).packets(), error_of(r)) == old(self)@.update(
                old(log).packets(),
                cur_cycle,
                emit,
                pick,
                probes@,
                lost_of(option),
                picks@,
                table.vids(),
                table.pids(),
            ),
    {
        self.cur_cycle = cur_cycle;
        match self.core.update_with(emit, pick, probes, option, picks) {
            Err(e) => Err(e),
            Ok(()) => self.after_core(table, log),
        }
    }

    fn after_core(&mut self, table: &VidTable, log: &mut Log) -> (r: Result<(), SimError>)
        requires
            old(self).wf(),
            old(log).wf(),
            table.wf(),
        ensures
            final(self).wf(),
            final(log).wf(),
            final(log).collisions() == old(log).collisions(),
            (final(self)@, final(log).packets(), error_of(r)) == old(self)@.after_core(
                old(log).packets(),
                table.vids(),
                table.pids(),
            ),
    {
        self.emit(table, log)?;
        if self.switching == Switching::CutThrough {
            let mut channel_id: u8 = 0;
            let ghost start = self@;
            let ghost entries = log.packets();
            while channel_id < self.channel_num
                invariant
                    self.wf(),
                    table.wf(),
                    log.wf(),
                    log.packets() == entries,
                    log.collisions() == old(log).collisions(),
                    (start, entries, None::<SimError>) == old(self)@.emit(
                        old(log).packets(),
                        table.vids(),
                        table.pids(),
                    ),
                    start.switching == Switching::CutThrough,
                    self@.channel_num == start.channel_num,
                    channel_id <= self@.channel_num,
                    (self@, None::<SimError>) == start.forward_each(
                        channel_id as int,
                        table.vids(),
                        table.pids(),
                    ),
                decreases self.channel_num - channel_id,
            {
                let ghost cur = self@;
                match self.forward_flits(channel_id, table) {
                    Ok(()) => {},
                    Err(e) => {
                        proof {
                            assert(start.forward_each(
                                channel_id + 1,
                                table.vids(),
                                table.pids(),
                            ) == (self@, Some(e)));
                            lemma_forward_each_stops(
                                start,
                                channel_id + 1,
                                start.channel_num as int,
                                table.vids(),
                                table.pids(),
                            );
                        }
                        return Err(e);
                    },
                }
                channel_id = channel_id + 1;
            }
        }
        Ok(())
    }

    fn emit(&mut self, table: &VidTable, log: &mut Log) -> (r: Result<(), SimError>)
        requires
            old(self).wf(),
            old(log).wf(),
            table.wf(),
        ensures
            final(self).wf(),
            final(log).wf(),
            final(log).collisions() == old(log).collisions(),
            (final(self)@, final(log).packets(), error_of(r)) == old(self)@.emit(
                old(log).packets(),
                table.vids(),
                table.pids(),
            ),
    {
        let packet = match self.core.send_packet(table)? {
            Some(p) => p,
            None => {
                return Ok(());
            },
        };
        if packet.data.len() > 0xffff_ffff {
            return Err(SimError::Encode);
        }
        let flits = packet_to_flits(&packet);
        self.log_packet(&packet, table, log)?;
        let lane = if packet.channel_id < self.channel_num {
            packet.channel_id
        } else {
            0
        };
        let ghost before = self@;
        let ghost entries = log.packets();
        let mut i: usize = 0;
        assert(before.sending[lane as int] + flits.deep_view().subrange(0, 0)
            =~= before.sending[lane as int]);
        assert(before.sending =~= before.sending.update(
            lane as int,
            before.sending[lane as int] + flits.deep_view().subrange(0, 0),
        ));
        while i < flits.len()
            invariant
                self.wf(),
                before.wf(),
                log.wf(),
                log.packets() == entries,
                log.collisions() == old(log).collisions(),
                i <= flits@.len(),
                lane < self.channel_num,
                self@ == (NetworkView { sending: self@.sending, ..before }),
                self@.sending == before.sending.update(
                    lane as int,
                    before.sending[lane as int] + flits.deep_view().subrange(0, i as int),
                ),
            decreases flits@.len() - i,
        {
            let ghost cur = self@.sending;
            self.sending_flit_buffer[lane as usize].push(&flits[i]);
            assert(self@.sending =~= cur.update(
                lane as int,
                cur[lane as int].push(flits@[i as int]@),
            ));
            assert(flits.deep_view().subrange(0, i + 1) =~= flits.deep_view().subrange(
                0,
                i as int,
            ).push(flits@[i as int]@));
            assert(cur[lane as int] == before.sending[lane as int] + flits.deep_view().subrange(
                0,
                i as int,
            ));
            assert(cur[lane as int].push(flits@[i as int]@) =~= before.sending[lane as int]
                + flits.deep_view().subrange(0, i + 1));
            assert(self@.sending =~= before.sending.update(
                lane as int,
                before.sending[lane as int] + flits.deep_view().subrange(0, i + 1),
            ));
            i = i + 1;
        }
        assert(flits.deep_view().subrange(0, flits@.len() as int) =~= flits.deep_view());
        Ok(())
    }

    /// Takes a flit from the link.
    pub fn receive_flit(&mut self, flit: &Flit, channel_id: u8, table: &VidTable, log: &mut Log) -> (r:
        Result<(), SimError>)
        requires
            old(self).wf(),
            old(log).wf(),
            table.wf(),
        ensures
            final(self).wf(),
            final(log).wf(),
            final(log).collisions() == old(log).collisions(),
            (final(self)@, final(log).packets(), error_of(r)) == old(self)@.receive(
                old(log).packets(),
                flit@,
                channel_id,
                table.vids(),
                table.pids(),
            ),
    {
        if flit.is_ack() {
            return Ok(());
        }
        if flit.is_empty() {
            return Err(SimError::EmptyFlit);
        }
        let lane = if channel_id < self.channel_num {
            channel_id
        } else {
            0
        };
        let dest_id = flit.get_dest_id().unwrap();
        let next_id = flit.get_next_id().unwrap();
        if dest_id == self.id || dest_id == String::from_str("broadcast") {
            self.take_in(flit, table, log)
        } else if next_id == self.id {
            match self.switching {
                Switching::StoreAndForward => self.take_in(flit, table, log),
                Switching::CutThrough => {
                    let ghost cur = self@.receiving;
                    self.receiving_flit_buffer[lane as usize].push(flit);
                    assert(self@.receiving =~= cur.update(
                        lane as int,
                        cur[lane as int].push(flit@),
                    ));
                    if flit.is_last() {
                        let ghost start = self@;
                        while !self.receiving_flit_buffer[lane as usize].is_empty()
                            invariant
                                self.wf(),
                                start.wf(),
                                old(self)@.receive(
                                    old(log).packets(),
                                    flit@,
                                    channel_id,
                                    table.vids(),
                                    table.pids(),
                                ) == (
                                    start.forward_all(lane as int, table.vids(), table.pids()).0,
                                    old(log).packets(),
                                    start.forward_all(lane as int, table.vids(), table.pids()).1,
                                ),
                                table.wf(),
                                log.wf(),
                                *log == *old(log),
                                lane < self.channel_num,
                                start.forward_all(lane as int, table.vids(), table.pids())
                                    == self@.forward_all(lane as int, table.vids(), table.pids()),
                            decreases self.receiving_flit_buffer@[lane as int]@.len(),
                        {
                            assert(self@.receiving[lane as int]
                                == self.receiving_flit_buffer@[lane as int]@);
                            let ghost cur = self@;
                            match self.forward_flits(lane, table) {
                                Ok(()) => {},
                                Err(e) => {
                                    assert(cur.forward_all(lane as int, table.vids(), table.pids())
                                        == (self@, Some(e)));
                                    return Err(e);
                                },
                            }
                            assert(self@.receiving[lane as int]
                                == self.receiving_flit_buffer@[lane as int]@);
                        }
                        assert(self@.receiving[lane as int]
                            == self.receiving_flit_buffer@[lane as int]@);
                    }
                    Ok(())
                },
            }
        } else {
            Ok(())
        }
    }

    fn take_in(&mut self, flit: &Flit, table: &VidTable, log: &mut Log) -> (r: Result<(), SimError>)
        requires
            old(self).wf(),
            old(log).wf(),
            table.wf(),
            !(flit@ is Empty),
        ensures
            final(self).wf(),
            final(log).wf(),
            final(log).collisions() == old(log).collisions(),
            (final(self)@, final(log).packets(), error_of(r)) == old(self)@.take_in(
                old(log).packets(),
                flit@,
                table.vids(),
            ),
    {
        self.received_flits_buffer.push_flit(flit);
        if flit.is_last() {
            let source_id = flit.get_source_id().unwrap();
            let packet_id = flit.get_packet_id().unwrap();
            if let Some(packet) = self.received_flits_buffer.pop_packet(
                source_id.as_str(),
                packet_id,
            ) {
                proof {
                    let key = bucket_key(flit@.source_id().unwrap(), flit@.packet_id().unwrap());
                    assert(self@.received =~= old(self)@.received.insert(key, Seq::empty()));
                }
                self.core.receive_packet(&packet, table)?;
                self.log_flit(flit, log);
            } else {
                proof {
                    let key = bucket_key(flit@.source_id().unwrap(), flit@.packet_id().unwrap());
                    let held = if old(self)@.received.contains_key(key) {
                        old(self)@.received[key]
                    } else {
                        Seq::empty()
                    };
                    assert(self@.received =~= old(self)@.received.insert(
                        key,
                        stable_sort(dedup(held.push(flit@))),
                    ));
                }
            }
        }
        Ok(())
    }

    /// Hands a message of the node's user to the routing core.
    pub fn send_new_packet(&mut self, packet: &InjectionPacket, table: &VidTable) -> (r: Result<
        (),
        SimError,
    >)
        requires
            old(self).wf(),
            table.wf(),
        ensures
            final(self).wf(),
            if !table.vids().contains_key(packet.dest_id@) {
                r == Err::<(), SimError>(SimError::UnknownNode) && final(self)@ == old(self)@
            } else {
                let (t, e) = old(self)@.core.tree().push_new(
                    packet.message@,
                    table.vids()[packet.dest_id@],
                );
                final(self)@ == (NetworkView { core: old(self)@.core.with_tree(t), ..old(self)@ })
                    && error_of(r) == e
            },
    {
        self.core.push_new_packet(packet, table)
    }

    pub fn is_joined(&self) -> (b: bool)
        ensures
            b == self@.core.tree().is_joined(),
    {
        self.core.is_joined()
    }

    pub fn get_pid(&self) -> (r: String)
        ensures
            r@ == self@.id,
    {
        self.id.clone()
    }

    /// The name of the parent on each channel, where there is one that the
    /// id table knows.
    pub fn get_parent_pid(&self, table: &VidTable) -> (r: Vec<Option<String>>)
        requires
            self.wf(),
        ensures
            opt_names(r@) == parent_names(self@.core.tree().parents(), table.pids()),
    {
        let parents = self.core.get_parent_id();
        let mut r: Vec<Option<String>> = Vec::new();
        let mut i: usize = 0;
        while i < parents.len()
            invariant
                i <= parents@.len(),
                parents@ == self@.core.tree().parents(),
                opt_names(r@) =~= parent_names(parents@, table.pids()).subrange(0, i as int),
            decreases parents@.len() - i,
        {
            let name = match parents[i] {
                Some(v) => get_pid(table, v),
                None => None,
            };
            let ghost before = opt_names(r@);
            r.push(name);
            assert(opt_names(r@) =~= before.push(opt_str_view(name)));
            i = i + 1;
        }
        assert(parent_names(parents@, table.pids()).subrange(0, parents@.len() as int)
            =~= parent_names(parents@, table.pids()));
        r
    }

    /// Passes the flit at the head of a channel's queue of flits to pass
    /// on through the routing core.
    pub fn forward_flits(&mut self, channel_id: u8, table: &VidTable) -> (r: Result<(), SimError>)
        requires
            old(self).wf(),
            table.wf(),
            channel_id < old(self)@.channel_num,
        ensures
            final(self).wf(),
            (final(self)@, error_of(r)) == old(self)@.forward_one(
                channel_id as int,
                table.vids(),
                table.pids(),
            ),
    {
        let ghost before = self@;
        match self.receiving_flit_buffer[channel_id as usize].pop() {
            None => {
                assert(self@.receiving =~= before.receiving);
                Ok(())
            },
            Some(flit) => {
                assert(self@.receiving =~= before.receiving.update(
                    channel_id as int,
                    before.receiving[channel_id as int].subrange(
                        1,
                        before.receiving[channel_id as int].len() as int,
                    ),
                ));
                let new_flit = self.core.forward_flit(&flit, table)?;
                let lane = match new_flit.get_channel_id() {
                    Some(c) if c < self.channel_num => c,
                    _ => 0,
                };
                let ghost cur = self@.sending;
                self.sending_flit_buffer[lane as usize].push(&new_flit);
                assert(self@.sending =~= cur.update(lane as int, cur[lane as int].push(new_flit@)));
                Ok(())
            },
        }
    }

    /// The queue that the next flit to send is taken from.
    pub fn select_channel(&self) -> (c: u8)
        requires
            self.wf(),
        ensures
            c == self@.select_channel(),
            c < self@.channel_num,
    {
        if !self.send_history.1.is_empty() && self.send_history.0 {
            let c = self.send_history.1.get_channel_id().unwrap();
            return if c < self.channel_num {
                c
            } else {
                0
            };
        }
        let mut channel_id: u8 = 0;
        while channel_id < self.channel_num
            invariant
                self.wf(),
                channel_id <= self.channel_num,
                self@.send_history.1 is Empty || !self@.send_history.0,
                first_waiting(self@.sending, 0) == first_waiting(self@.sending, channel_id as int),
            decreases self.channel_num - channel_id,
        {
            assert(self@.sending[channel_id as int] == self.sending_flit_buffer@[channel_id as int]@);
            if !self.sending_flit_buffer[channel_id as usize].is_empty() {
                assert(first_waiting(self@.sending, channel_id as int) == channel_id);
                return channel_id;
            }
            assert(first_waiting(self@.sending, channel_id as int) == first_waiting(
                self@.sending,
                channel_id + 1,
            ));
            channel_id = channel_id + 1;
        }
        0
    }

    /// Tells the log of a flit that this node sends or takes in.
    pub fn log_flit(&self, flit: &Flit, log: &mut Log)
        requires
            old(log).wf(),
        ensures
            final(log).wf(),
            final(log).collisions() == old(log).collisions(),
            final(log).packets() == self@.log_flit(old(log).packets(), flit@),
    {
        if flit.is_empty() {
            return ;
        }
        let source_id = flit.get_source_id().unwrap();
        let dest_id = flit.get_dest_id().unwrap();
        let packet_id = make_log_key(source_id.as_str(), flit.get_packet_id().unwrap());
        let send_init = source_id == self.id && flit.is_header();
        let is_delivered = dest_id == self.id && flit.is_last();
        let update_log = UpdatePacketLogInfo {
            send_cycle: if send_init { Some(self.cur_cycle) } else { None },
            last_receive_cycle: if is_delivered { Some(self.cur_cycle) } else { None },
            route_info: if flit.is_header() { Some(self.id.clone()) } else { None },
            is_delivered: Some(is_delivered),
            flit_log: None,
        };
        assert(update_log@ == self@.flit_update(flit@));
        let _ = update_packet_log(log, packet_id.as_str(), &update_log);
    }

    /// Enters a packet that this node has made in the log.
    pub fn log_packet(&self, packet: &Packet, table: &VidTable, log: &mut Log) -> (r: Result<
        (),
        SimError,
    >)
        requires
            old(log).wf(),
            table.wf(),
            packet.data@.len() <= u32::MAX,
        ensures
            final(log).wf(),
            final(log).collisions() == old(log).collisions(),
            match message_of(packet@, table.vids()) {
                Ok(m) => r is Ok && final(log).packets() == old(log).packets().insert(
                    log_key(packet@.source_id, packet@.packet_id),
                    fresh_entry(self@.packet_entry(packet@, m)),
                ),
                Err(e) => r == Err::<(), SimError>(e) && final(log).packets() == old(
                    log,
                ).packets(),
            },
    {
        let message = self.core.get_message(packet, table)?;
        let info = NewPacketLogInfo {
            packet_id: make_log_key(packet.source_id.as_str(), packet.packet_id),
            from_id: packet.source_id.clone(),
            dest_id: packet.dest_id.clone(),
            flits_len: packet.get_flits_len(),
            message,
            channel_id: packet.channel_id,
        };
        let _ = post_new_packet_log(log, &info);
        Ok(())
    }

    /// Tells the log of a flit that this node sends or takes in, or of a
    /// packet that it has made: of the one that is given.
    pub fn log_handler(
        &self,
        flit: Option<&Flit>,
        packet: Option<&Packet>,
        table: &VidTable,
        log: &mut Log,
    ) -> (r: Result<(), SimError>)
        requires
            old(log).wf(),
            table.wf(),
            flit is Some != packet is Some,
            packet matches Some(p) ==> p.data@.len() <= u32::MAX,
        ensures
            final(log).wf(),
            final(log).collisions() == old(log).collisions(),
            flit matches Some(f) ==> r is Ok && final(log).packets() == self@.log_flit(
                old(log).packets(),
                f@,
            ),
            packet matches Some(p) ==> match message_of(p@, table.vids()) {
                Ok(m) => r is Ok && final(log).packets() == old(log).packets().insert(
                    log_key(p@.source_id, p@.packet_id),
                    fresh_entry(self@.packet_entry(p@, m)),
                ),
                Err(e) => r == Err::<(), SimError>(e) && final(log).packets() == old(
                    log,
                ).packets(),
            },
    {
        if let Some(flit) = flit {
            self.log_flit(flit, log);
        }
        if let Some(packet) = packet {
            self.log_packet(packet, table, log)?;
        }
        Ok(())
    }
}

/// When the log hears of a flit in a cycle that is not before the cycle in
/// which the flit's packet was sent, the packet's entry still shows no
/// arrival before the sending.
pub proof fn lemma_arrival_after_sending(net: NetworkView, e: PacketLogView, f: FlitView)
    requires
        e.send_cycle matches Some(c) ==> c <= net.cur_cycle,
    ensures
        updated_entry(e, net.flit_update(f)).arrived_after_sending(),
        updated_entry(e, net.flit_update(f)).send_cycle matches Some(c) ==> c <= net.cur_cycle,
{
}

} // verus!
