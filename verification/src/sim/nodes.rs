use vstd::prelude::*;
use vstd::string::*;
use crate::error::SimError;
use crate::hardware::state::State;
use crate::hardware::HardwareView;
use crate::log::{post_collision_info, CollisionInfoView, Log, NewCollisionInfo};
use crate::network::core_functions::multi_tree::error_of;
use crate::network::flit::{Flit, FlitView};
use crate::network::option::{holds_name, lost_names, UpdateOption};
use crate::network::vid::VidTable;
use crate::network::Packets;
use crate::sim::node::{Draws, Node, NodeDraws, NodeView};
use crate::sim::rec::{copy_neighbors, neighbor_map, Neighbors, RecTable};
use crate::str_map::StrMap;

verus! {

/// The flits on their way to each node, by the node's name.
pub type Inboxes = Map<Seq<char>, Seq<FlitView>>;

/// The neighbours of each node, by name.
pub type Links = Map<Seq<char>, Seq<Seq<char>>>;

/// The inboxes as a mathematical value.
pub open spec fn inbox_map(buffers: StrMap<Vec<Flit>>) -> Inboxes {
    buffers@.map_values(|flits: Vec<Flit>| flits.deep_view())
}

/// The inboxes with one more flit for `receiver`.
pub open spec fn put(inboxes: Inboxes, receiver: Seq<char>, f: FlitView) -> Inboxes {
    let held = if inboxes.contains_key(receiver) {
        inboxes[receiver]
    } else {
        Seq::empty()
    };
    inboxes.insert(receiver, held.push(f))
}

/// The inboxes with one more flit for each of `receivers`.
pub open spec fn put_all(inboxes: Inboxes, receivers: Seq<Seq<char>>, f: FlitView) -> Inboxes
    decreases receivers.len(),
{
    if receivers.len() == 0 {
        inboxes
    } else {
        put(put_all(inboxes, receivers.drop_last(), f), receivers.last(), f)
    }
}

/// The neighbours of a node; a node without entry has none.
pub open spec fn neighbors_of(links: Links, id: Seq<char>) -> Seq<Seq<char>> {
    if links.contains_key(id) {
        links[id]
    } else {
        Seq::empty()
    }
}

/// What a node puts on the link in a cycle. A sending node sends the flit
/// that awaits its acknowledgement: to every neighbour if the flit's next
/// hop is every node, else to the next hop if that is a neighbour. A node
/// that owes an acknowledgement sends it to its destination.
pub open spec fn emit_one(node: NodeView, inboxes: Inboxes, links: Links) -> (
    NodeView,
    Inboxes,
    Option<SimError>,
) {
    match node.hardware.state.state {
        State::Sending => {
            let (sent, out) = node.send_flit();
            match out {
                Err(e) => (sent, inboxes, Some(e)),
                Ok(f) => {
                    let receiver = f.next_id().unwrap();
                    let near = neighbors_of(links, node.id);
                    if receiver == "broadcast"@ {
                        (sent, put_all(inboxes, near, f), None)
                    } else if near.contains(receiver) {
                        (sent, put(inboxes, receiver, f), None)
                    } else {
                        (sent, inboxes, None)
                    }
                },
            }
        },
        State::ReplyAck => {
            let ack = node.hardware.ack_buffer;
            if ack is Ack {
                (
                    NodeView {
                        hardware: HardwareView { ack_buffer: FlitView::Empty, ..node.hardware },
                        ..node
                    },
                    put(inboxes, ack.dest_id().unwrap(), ack),
                    None,
                )
            } else {
                (node, inboxes, None)
            }
        },
        _ => (node, inboxes, None),
    }
}

/// `emit_one` for the first `n` nodes, in their order, up to the first
/// error.
pub open spec fn emit_all(nodes: Seq<NodeView>, n: int, inboxes: Inboxes, links: Links) -> (
    Seq<NodeView>,
    Inboxes,
    Option<SimError>,
)
    decreases n,
{
    if n <= 0 {
        (nodes, inboxes, None)
    } else {
        let (ns, ib, e) = emit_all(nodes, n - 1, inboxes, links);
        if e is Some {
            (ns, ib, e)
        } else {
            let (node, ib2, e2) = emit_one(ns[n - 1], ib, links);
            (ns.update(n - 1, node), ib2, e2)
        }
    }
}

/// The node that each of the flits came from on its last hop.
pub open spec fn senders(flits: Seq<FlitView>) -> Seq<Seq<char>> {
    Seq::new(
        flits.len(),
        |i: int|
            match flits[i].prev_id() {
                Some(p) => p,
                None => Seq::empty(),
            },
    )
}

/// What reaches a node in a cycle. A single flit is delivered if the node
/// is idle or waiting. Two or more flits collide: the collision is noted
/// and none of them is delivered.
pub open spec fn take_one(
    node: NodeView,
    inboxes: Inboxes,
    packets: Packets,
    collisions: Seq<CollisionInfoView>,
    cycle: u32,
    vids: Map<Seq<char>, u32>,
    pids: Map<u32, Seq<char>>,
) -> (NodeView, Packets, Seq<CollisionInfoView>, Option<SimError>) {
    if !inboxes.contains_key(node.id) {
        (node, packets, collisions, None)
    } else {
        let flits = inboxes[node.id];
        if flits.len() == 1 {
            if node.hardware.state.state is Idle || node.hardware.state.state is Waiting {
                let (n, log, e) = node.receive(packets, flits[0], vids, pids);
                (n, log, collisions, e)
            } else {
                (node, packets, collisions, None)
            }
        } else if flits.len() >= 2 {
            (
                node,
                packets,
                collisions.push(
                    CollisionInfoView { cycle, from_ids: senders(flits), dest_id: node.id },
                ),
                None,
            )
        } else {
            (node, packets, collisions, None)
        }
    }
}

/// `take_one` for the first `n` nodes, in their order, up to the first
/// error.
pub open spec fn take_all(
    nodes: Seq<NodeView>,
    n: int,
    inboxes: Inboxes,
    packets: Packets,
    collisions: Seq<CollisionInfoView>,
    cycle: u32,
    vids: Map<Seq<char>, u32>,
    pids: Map<u32, Seq<char>>,
) -> (Seq<NodeView>, Packets, Seq<CollisionInfoView>, Option<SimError>)
    decreases n,
{
    if n <= 0 {
        (nodes, packets, collisions, None)
    } else {
        let (ns, log, cs, e) = take_all(
            nodes,
            n - 1,
            inboxes,
            packets,
            collisions,
            cycle,
            vids,
            pids,
        );
        if e is Some {
            (ns, log, cs, e)
        } else {
            let (node, log2, cs2, e2) = take_one(ns[n - 1], inboxes, log, cs, cycle, vids, pids);
            (ns.update(n - 1, node), log2, cs2, e2)
        }
    }
}

/// The nodes of a system with the links between them, and the flits on
/// their way.
#[derive(Debug)]
pub struct Nodes {
    pub nodes: Vec<Node>,
    pub flit_buffers: StrMap<Vec<Flit>>,
    pub neighbors: Neighbors,
    pub rec_table: RecTable,
}

pub struct NodesView {
    pub nodes: Seq<NodeView>,
    pub inboxes: Inboxes,
    pub links: Links,
}

impl View for Nodes {
    type V = NodesView;

    open spec fn view(&self) -> NodesView {
        NodesView {
            nodes: self.nodes.deep_view(),
            inboxes: inbox_map(self.flit_buffers),
            links: neighbor_map(self.neighbors),
        }
    }
}

impl NodesView {
    /// The exchange of flits in a cycle: each node puts its flit on the
    /// link, then each node takes what reached it, and the links are empty
    /// again. After an error the links are left as they are.
    pub open spec fn message_handle(
        self,
        packets: Packets,
        collisions: Seq<CollisionInfoView>,
        cycle: u32,
        vids: Map<Seq<char>, u32>,
        pids: Map<u32, Seq<char>>,
    ) -> (NodesView, Packets, Seq<CollisionInfoView>, Option<SimError>) {
        let n = self.nodes.len() as int;
        let (sent, inboxes, e) = emit_all(self.nodes, n, self.inboxes, self.links);
        if e is Some {
            (NodesView { nodes: sent, inboxes, ..self }, packets, collisions, e)
        } else {
            let (taken, log, cs, e2) = take_all(
                sent,
                n,
                inboxes,
                packets,
                collisions,
                cycle,
                vids,
                pids,
            );
            if e2 is Some {
                (NodesView { nodes: taken, inboxes, ..self }, log, cs, e2)
            } else {
                (NodesView { nodes: taken, inboxes: Map::empty(), ..self }, log, cs, None)
            }
        }
    }
}

fn put_flit(buffers: &mut StrMap<Vec<Flit>>, receiver: &str, flit: Flit)
    requires
        old(buffers).wf(),
    ensures
        final(buffers).wf(),
        inbox_map(*final(buffers)) == put(inbox_map(*old(buffers)), receiver@, flit@),
{
    let mut held = match buffers.remove(receiver) {
        Some(v) => v,
        None => Vec::new(),
    };
    let ghost before = held.deep_view();
    assert(before =~= (if inbox_map(*old(buffers)).contains_key(receiver@) {
        inbox_map(*old(buffers))[receiver@]
    } else {
        Seq::empty()
    }));
    held.push(flit);
    assert(held.deep_view() =~= before.push(flit@));
    buffers.insert(receiver, held);
    assert(buffers@ =~= old(buffers)@.insert(receiver@, held));
    assert(inbox_map(*buffers) =~= put(inbox_map(*old(buffers)), receiver@, flit@));
}

fn sender_names(flits: &Vec<Flit>) -> (r: Vec<String>)
    ensures
        r.deep_view() == senders(flits.deep_view()),
{
    let mut r: Vec<String> = Vec::new();
    let mut i: usize = 0;
    while i < flits.len()
        invariant
            i <= flits@.len(),
            r.deep_view() =~= senders(flits.deep_view()).subrange(0, i as int),
        decreases flits@.len() - i,
    {
        let name = match flits[i].get_prev_id() {
            Some(p) => p,
            None => String::new(),
        };
        let ghost before = r.deep_view();
        r.push(name);
        assert(r.deep_view() =~= before.push(name@));
        i = i + 1;
    }
    assert(senders(flits.deep_view()).subrange(0, flits@.len() as int) =~= senders(
        flits.deep_view(),
    ));
    r
}

impl Nodes {
    pub open spec fn wf(&self) -> bool {
        &&& forall|i: int| 0 <= i < self.nodes@.len() ==> (#[trigger] self.nodes@[i]).wf()
        &&& self.flit_buffers.wf()
        &&& self.neighbors.wf()
        &&& forall|c: u32| #[trigger]
            self.rec_table.table@.contains_key(c) ==> self.rec_table.table@[c].new_neighbors.wf()
    }

    /// Puts nodes, links and the changes of the links to come together to
    /// a system with nothing on its way.
    pub fn new(nodes: Vec<Node>, neighbors: Neighbors, rec_table: RecTable) -> (r: Self)
        ensures
            r.nodes == nodes,
            r.neighbors == neighbors,
            r.rec_table == rec_table,
            r.flit_buffers.wf(),
            r@.inboxes == Map::<Seq<char>, Seq<FlitView>>::empty(),
            r.wf() == ((forall|i: int| 0 <= i < nodes@.len() ==> (#[trigger] nodes@[i]).wf())
                && neighbors.wf() && (forall|c: u32| #[trigger]
                rec_table.table@.contains_key(c) ==> rec_table.table@[c].new_neighbors.wf())),
    {
        let r = Self { nodes, flit_buffers: StrMap::new(), neighbors, rec_table };
        assert(r@.inboxes =~= Map::<Seq<char>, Seq<FlitView>>::empty());
        r
    }

    fn emit_from(&mut self, i: usize) -> (r: Result<(), SimError>)
        requires
            old(self).wf(),
            i < old(self).nodes@.len(),
        ensures
            final(self).wf(),
            final(self).neighbors == old(self).neighbors,
            final(self).rec_table == old(self).rec_table,
            final(self).nodes@.len() == old(self).nodes@.len(),
            ({
                let (node, inboxes, e) = emit_one(
                    old(self)@.nodes[i as int],
                    old(self)@.inboxes,
                    old(self)@.links,
                );
                &&& final(self)@.nodes == old(self)@.nodes.update(i as int, node)
                &&& final(self)@.inboxes == inboxes
                &&& error_of(r) == e
            }),
    {
        let state = *self.nodes[i].hardware.state.get();
        let ghost before = self@.nodes;
        assert(before[i as int] == self.nodes@[i as int]@);
        match state {
            State::Sending => {
                let sent = self.nodes[i].send_flit();
                assert(self@.nodes =~= before.update(i as int, self.nodes@[i as int]@));
                assert(self.nodes@[i as int].wf());
                let flit = sent?;
                let ghost sent_node = self.nodes@[i as int]@;
                let receiver_id = flit.get_next_id().unwrap();
                assert(neighbors_of(self@.links, self.nodes@[i as int].id@) == neighbors_of(
                    old(self)@.links,
                    before[i as int].id,
                ));
                match self.neighbors.find(self.nodes[i].id.as_str()) {
                    Some(k) => {
                        assert(neighbors_of(self@.links, self.nodes@[i as int].id@)
                            == self.neighbors.vals@[k as int].deep_view());
                        if receiver_id == String::from_str("broadcast") {
                            let mut j: usize = 0;
                            while j < self.neighbors.vals[k].len()
                                invariant
                                    self.wf(),
                                    k < self.neighbors.vals@.len(),
                                    self.neighbors == old(self).neighbors,
                                    self.rec_table == old(self).rec_table,
                                    self.nodes@.len() == old(self).nodes@.len(),
                                    self@.nodes == before.update(i as int, sent_node),
                                    j <= self.neighbors.vals@[k as int]@.len(),
                                    self@.inboxes == put_all(
                                        old(self)@.inboxes,
                                        self.neighbors.vals@[k as int].deep_view().subrange(
                                            0,
                                            j as int,
                                        ),
                                        flit@,
                                    ),
                                decreases self.neighbors.vals@[k as int]@.len() - j,
                            {
                                proof {
                                    let names = self.neighbors.vals@[k as int].deep_view();
                                    let next = names.subrange(0, j + 1);
                                    assert(next.drop_last() =~= names.subrange(0, j as int));
                                    assert(next.last() == self.neighbors.vals@[k as int]@[j as int]@);
                                }
                                put_flit(
                                    &mut self.flit_buffers,
                                    self.neighbors.vals[k][j].as_str(),
                                    flit.clone(),
                                );
                                j = j + 1;
                            }
                            proof {
                                let names = self.neighbors.vals@[k as int].deep_view();
                                assert(names.subrange(0, names.len() as int) =~= names);
                            }
                        } else if holds_name(&self.neighbors.vals[k], &receiver_id) {
                            put_flit(&mut self.flit_buffers, receiver_id.as_str(), flit);
                        }
                    },
                    None => {},
                }
                Ok(())
            },
            State::ReplyAck => {
                let sent = self.nodes[i].send_ack();
                assert(self@.nodes =~= before.update(i as int, self.nodes@[i as int]@));
                assert(self.nodes@[i as int].wf());
                let ack = sent?;
                if ack.is_ack() {
                    if let Some(receiver_id) = ack.get_dest_id() {
                        put_flit(&mut self.flit_buffers, receiver_id.as_str(), ack);
                    }
                }
                Ok(())
            },
            _ => {
                assert(self@.nodes =~= before.update(i as int, before[i as int]));
                Ok(())
            },
        }
    }

    fn take_at(&mut self, i: usize, cur_cycle: u32, table: &VidTable, log: &mut Log) -> (r: Result<
        (),
        SimError,
    >)
        requires
            old(self).wf(),
            old(log).wf(),
            table.wf(),
            i < old(self).nodes@.len(),
        ensures
            final(self).wf(),
            final(log).wf(),
            final(self).neighbors == old(self).neighbors,
            final(self).rec_table == old(self).rec_table,
            final(self).flit_buffers == old(self).flit_buffers,
            final(self).nodes@.len() == old(self).nodes@.len(),
            ({
                let (node, packets, collisions, e) = take_one(
                    old(self)@.nodes[i as int],
                    old(self)@.inboxes,
                    old(log).packets(),
                    old(log).collisions(),
                    cur_cycle,
                    table.vids(),
                    table.pids(),
                );
                &&& final(self)@.nodes == old(self)@.nodes.update(i as int, node)
                &&& final(log).packets() == packets
                &&& final(log).collisions() == collisions
                &&& error_of(r) == e
            }),
    {
        let ghost before = self@.nodes;
        assert(before[i as int] == self.nodes@[i as int]@);
        assert(self@.nodes =~= before.update(i as int, before[i as int]));
        let k = match self.flit_buffers.find(self.nodes[i].id.as_str()) {
            Some(k) => k,
            None => {
                return Ok(());
            },
        };
        assert(self@.inboxes[self.nodes@[i as int].id@] == self.flit_buffers.vals@[k as int].deep_view());
        let n = self.flit_buffers.vals[k].len();
        if n == 1 {
            let state = *self.nodes[i].hardware.state.get();
            if matches!(state, State::Idle | State::Waiting(_)) {
                let flit = self.flit_buffers.vals[k][0].clone();
                let r = self.nodes[i].receive_flit(&flit, table, log);
                assert(self@.nodes =~= before.update(i as int, self.nodes@[i as int]@));
                return r;
            }
        } else if n >= 2 {
            let info = NewCollisionInfo {
                cycle: cur_cycle,
                from_ids: sender_names(&self.flit_buffers.vals[k]),
                dest_id: self.nodes[i].id.clone(),
            };
            post_collision_info(log, &info);
        }
        Ok(())
    }

    /// The exchange of flits in a cycle.
    pub fn message_handle(&mut self, cur_cycle: u32, table: &VidTable, log: &mut Log) -> (r: Result<
        (),
        SimError,
    >)
        requires
            old(self).wf(),
            old(log).wf(),
            table.wf(),
        ensures
            final(self).wf(),
            final(log).wf(),
            final(self).neighbors == old(self).neighbors,
            final(self).rec_table == old(self).rec_table,
            (final(self)@, final(log).packets(), final(log).collisions(), error_of(r)) == old(
                self,
            )@.message_handle(
                old(log).packets(),
                old(log).collisions(),
                cur_cycle,
                table.vids(),
                table.pids(),
            ),
    {
        let total = self.nodes.len();
        let mut i: usize = 0;
        while i < total
            invariant
                self.wf(),
                log.wf(),
                *log == *old(log),
                total == old(self).nodes@.len(),
                self.nodes@.len() == total,
                self.neighbors == old(self).neighbors,
                self.rec_table == old(self).rec_table,
                i <= total,
                (self@.nodes, self@.inboxes, None::<SimError>) == emit_all(
                    old(self)@.nodes,
                    i as int,
                    old(self)@.inboxes,
                    old(self)@.links,
                ),
            decreases total - i,
        {
            match self.emit_from(i) {
                Ok(()) => {},
                Err(e) => {
                    proof {
                        lemma_emit_all_stops(
                            old(self)@.nodes,
                            i + 1,
                            total as int,
                            old(self)@.inboxes,
                            old(self)@.links,
                        );
                    }
                    return Err(e);
                },
            }
            i = i + 1;
        }
        let ghost sent = self@.nodes;
        let ghost inboxes = self@.inboxes;
        let mut i: usize = 0;
        while i < total
            invariant
                self.wf(),
                log.wf(),
                table.wf(),
                total == old(self).nodes@.len(),
                self.nodes@.len() == total,
                self.neighbors == old(self).neighbors,
                self.rec_table == old(self).rec_table,
                self@.inboxes == inboxes,
                (sent, inboxes, None::<SimError>) == emit_all(
                    old(self)@.nodes,
                    total as int,
                    old(self)@.inboxes,
                    old(self)@.links,
                ),
                i <= total,
                (self@.nodes, log.packets(), log.collisions(), None::<SimError>) == take_all(
                    sent,
                    i as int,
                    inboxes,
                    old(log).packets(),
                    old(log).collisions(),
                    cur_cycle,
                    table.vids(),
                    table.pids(),
                ),
            decreases total - i,
        {
            match self.take_at(i, cur_cycle, table, log) {
                Ok(()) => {},
                Err(e) => {
                    proof {
                        lemma_take_all_stops(
                            sent,
                            i + 1,
                            total as int,
                            inboxes,
                            old(log).packets(),
                            old(log).collisions(),
                            cur_cycle,
                            table.vids(),
                            table.pids(),
                        );
                    }
                    return Err(e);
                },
            }
            i = i + 1;
        }
        self.flit_buffers.clear();
        assert(self@.inboxes =~= Map::<Seq<char>, Seq<FlitView>>::empty());
        Ok(())
    }
}

/// After an error no further node puts a flit on the link.
proof fn lemma_emit_all_stops(nodes: Seq<NodeView>, k: int, n: int, inboxes: Inboxes, links: Links)
    requires
        0 <= k <= n,
        emit_all(nodes, k, inboxes, links).2 is Some,
    ensures
        emit_all(nodes, n, inboxes, links) == emit_all(nodes, k, inboxes, links),
    decreases n - k,
{
    if k < n {
        lemma_emit_all_stops(nodes, k, n - 1, inboxes, links);
    }
}

/// After an error no further node takes a flit.
proof fn lemma_take_all_stops(
    nodes: Seq<NodeView>,
    k: int,
    n: int,
    inboxes: Inboxes,
    packets: Packets,
    collisions: Seq<CollisionInfoView>,
    cycle: u32,
    vids: Map<Seq<char>, u32>,
    pids: Map<u32, Seq<char>>,
)
    requires
        0 <= k <= n,
        take_all(nodes, k, inboxes, packets, collisions, cycle, vids, pids).3 is Some,
    ensures
        take_all(nodes, n, inboxes, packets, collisions, cycle, vids, pids) == take_all(
            nodes,
            k,
            inboxes,
            packets,
            collisions,
            cycle,
            vids,
            pids,
        ),
    decreases n - k,
{
    if k < n {
        lemma_take_all_stops(nodes, k, n - 1, inboxes, packets, collisions, cycle, vids, pids);
    }
}

/// The routing ids of the neighbours that a node loses when the links
/// change; `None` where one of them has no routing id.
pub open spec fn lost_ids(old_links: Links, new_links: Links, id: Seq<char>, vids: Map<Seq<char>, u32>) -> Option<
    Seq<u32>,
> {
    let lost = lost_names(neighbors_of(old_links, id), neighbors_of(new_links, id));
    if forall|i: int| 0 <= i < lost.len() ==> vids.contains_key(#[trigger] lost[i]) {
        Some(Seq::new(lost.len(), |i: int| vids[lost[i]]))
    } else {
        None
    }
}

/// One cycle of a node, which is told the neighbours that it has lost if
/// the links have changed.
#[verifier::opaque]
pub open spec fn update_one(
    node: NodeView,
    packets: Packets,
    cycle: u32,
    d: Draws,
    changed: Option<(Links, Links)>,
    vids: Map<Seq<char>, u32>,
    pids: Map<u32, Seq<char>>,
) -> (NodeView, Packets, Option<SimError>) {
    let lost = match changed {
        None => Some(Seq::empty()),
        Some((old_links, new_links)) => lost_ids(old_links, new_links, node.id, vids),
    };
    match lost {
        None => (node, packets, Some(SimError::UnknownNode)),
        Some(l) => node.update_by(packets, cycle, d, l, vids, pids),
    }
}

/// `update_one` for the first `n` nodes, in their order, up to the first
/// error.
pub open spec fn update_all(
    nodes: Seq<NodeView>,
    n: int,
    packets: Packets,
    cycle: u32,
    draws: Seq<Draws>,
    changed: Option<(Links, Links)>,
    vids: Map<Seq<char>, u32>,
    pids: Map<u32, Seq<char>>,
) -> (Seq<NodeView>, Packets, Option<SimError>)
    decreases n,
{
    if n <= 0 {
        (nodes, packets, None)
    } else {
        let (ns, log, e) = update_all(nodes, n - 1, packets, cycle, draws, changed, vids, pids);
        if e is Some {
            (ns, log, e)
        } else {
            let (node, log2, e2) = update_one(
                ns[n - 1],
                log,
                cycle,
                draws[n - 1],
                changed,
                vids,
                pids,
            );
            (ns.update(n - 1, node), log2, e2)
        }
    }
}

/// The links that a cycle brings, if it brings a change.
pub open spec fn links_at(rec_table: RecTable, cycle: u32) -> Option<Links> {
    if rec_table.table@.contains_key(cycle) {
        Some(neighbor_map(rec_table.table@[cycle].new_neighbors))
    } else {
        None
    }
}

impl NodesView {
    /// The first half of a cycle: the links change if the cycle brings a
    /// change, then each node has its cycle.
    pub open spec fn update_nodes(
        self,
        rec: Option<Links>,
        packets: Packets,
        cycle: u32,
        draws: Seq<Draws>,
        vids: Map<Seq<char>, u32>,
        pids: Map<u32, Seq<char>>,
    ) -> (NodesView, Packets, Option<SimError>) {
        let (links, changed) = match rec {
            Some(new_links) => (new_links, Some((self.links, new_links))),
            None => (self.links, None),
        };
        let (nodes, log, e) = update_all(
            self.nodes,
            self.nodes.len() as int,
            packets,
            cycle,
            draws,
            changed,
            vids,
            pids,
        );
        (NodesView { nodes, links, ..self }, log, e)
    }

    /// One cycle of the system: the nodes have their cycles, then flits are
    /// exchanged. The first error ends the cycle.
    pub open spec fn run_cycle(
        self,
        rec: Option<Links>,
        packets: Packets,
        collisions: Seq<CollisionInfoView>,
        cycle: u32,
        draws: Seq<Draws>,
        vids: Map<Seq<char>, u32>,
        pids: Map<u32, Seq<char>>,
    ) -> (NodesView, Packets, Seq<CollisionInfoView>, Option<SimError>) {
        let (s, log, e) = self.update_nodes(rec, packets, cycle, draws, vids, pids);
        if e is Some {
            (s, log, collisions, e)
        } else {
            s.message_handle(log, collisions, cycle, vids, pids)
        }
    }
}

/// The choices of nodes whose turn has not come decide nothing.
proof fn lemma_update_all_prefix(
    nodes: Seq<NodeView>,
    n: int,
    packets: Packets,
    cycle: u32,
    draws: Seq<Draws>,
    more: Seq<Draws>,
    changed: Option<(Links, Links)>,
    vids: Map<Seq<char>, u32>,
    pids: Map<u32, Seq<char>>,
)
    requires
        n <= draws.len() <= more.len(),
        forall|i: int| 0 <= i < draws.len() ==> draws[i] == more[i],
    ensures
        update_all(nodes, n, packets, cycle, draws, changed, vids, pids) == update_all(
            nodes,
            n,
            packets,
            cycle,
            more,
            changed,
            vids,
            pids,
        ),
    decreases n,
{
    if n > 0 {
        lemma_update_all_prefix(nodes, n - 1, packets, cycle, draws, more, changed, vids, pids);
    }
}

/// After an error no further node has its cycle.
proof fn lemma_update_all_stops(
    nodes: Seq<NodeView>,
    k: int,
    n: int,
    packets: Packets,
    cycle: u32,
    draws: Seq<Draws>,
    changed: Option<(Links, Links)>,
    vids: Map<Seq<char>, u32>,
    pids: Map<u32, Seq<char>>,
)
    requires
        0 <= k <= n,
        update_all(nodes, k, packets, cycle, draws, changed, vids, pids).2 is Some,
    ensures
        update_all(nodes, n, packets, cycle, draws, changed, vids, pids) == update_all(
            nodes,
            k,
            packets,
            cycle,
            draws,
            changed,
            vids,
            pids,
        ),
    decreases n - k,
{
    if k < n {
        lemma_update_all_stops(nodes, k, n - 1, packets, cycle, draws, changed, vids, pids);
    }
}

/// The numbers given, if any are.
pub open spec fn given_draws(given: Option<&Vec<NodeDraws>>) -> Seq<Draws> {
    match given {
        Some(g) => g.deep_view(),
        None => Seq::empty(),
    }
}

/// Whether the numbers `ds` are the numbers given, as far as these reach.
pub open spec fn agree(ds: Seq<Draws>, given: Seq<Draws>) -> bool {
    forall|i: int| 0 <= i < ds.len() && i < given.len() ==> #[trigger] ds[i] == given[i]
}

/// Whether each extra wait among the numbers that were drawn, rather than
/// given, is one that the node's link may draw.
pub open spec fn drawn_well(nodes: Seq<NodeView>, ds: Seq<Draws>, given: Seq<Draws>) -> bool {
    forall|i: int|
        given.len() <= i < ds.len() && i < nodes.len() ==> (#[trigger] nodes[i]).may_draw(ds[i])
}

/// The numbers drawn, followed by those of the numbers given that no node
/// has come to.
pub open spec fn completed(drawn: Seq<Draws>, given: Seq<Draws>) -> Seq<Draws> {
    if drawn.len() >= given.len() {
        drawn
    } else {
        drawn + given.subrange(drawn.len() as int, given.len() as int)
    }
}

/// The links before and after a change, if there was one.
pub open spec fn change_of(old_neighbors: Option<&Neighbors>, links: Links) -> Option<(Links, Links)> {
    match old_neighbors {
        Some(o) => Some((neighbor_map(*o), links)),
        None => None,
    }
}

fn list_of<'a>(links: &'a Neighbors, id: &str, none: &'a Vec<String>) -> (r: &'a Vec<String>)
    requires
        links.wf(),
        none@.len() == 0,
    ensures
        r.deep_view() == neighbors_of(neighbor_map(*links), id@),
{
    match links.get(id) {
        Some(names) => names,
        None => {
            assert(none.deep_view() =~= Seq::<Seq<char>>::empty());
            none
        },
    }
}

impl Nodes {
    /// Replaces the links between the nodes.
    pub fn update_system(&mut self, new_neighbors: &Neighbors)
        requires
            new_neighbors.wf(),
        ensures
            final(self).neighbors.wf(),
            final(self)@.links == neighbor_map(*new_neighbors),
            final(self).nodes == old(self).nodes,
            final(self).flit_buffers == old(self).flit_buffers,
            final(self).rec_table == old(self).rec_table,
    {
        self.neighbors = copy_neighbors(new_neighbors);
    }

    /// The cycle of the `i`-th node, which is told which neighbours it has
    /// lost if the links have changed. Without numbers for its choices the
    /// node draws them.
    fn update_at(
        &mut self,
        i: usize,
        cur_cycle: u32,
        old_neighbors: Option<&Neighbors>,
        draws: Option<&NodeDraws>,
        table: &VidTable,
        log: &mut Log,
    ) -> (r: Result<(), SimError>)
        requires
            old(self).wf(),
            old(log).wf(),
            table.wf(),
            i < old(self).nodes@.len(),
            old_neighbors matches Some(o) ==> o.wf(),
            draws matches Some(d) ==> d.backoff <= 0x8000_0000,
        ensures
            final(self).wf(),
            final(log).wf(),
            final(log).collisions() == old(log).collisions(),
            final(self).rec_table == old(self).rec_table,
            final(self).flit_buffers == old(self).flit_buffers,
            final(self).neighbors == old(self).neighbors,
            final(self).nodes@.len() == old(self).nodes@.len(),
            exists|d: Draws|
                {
                    let (node, packets, e) = #[trigger] update_one(
                        old(self)@.nodes[i as int],
                        old(log).packets(),
                        cur_cycle,
                        d,
                        change_of(old_neighbors, old(self)@.links),
                        table.vids(),
                        table.pids(),
                    );
                    &&& draws matches Some(x) ==> d == x@
                    &&& draws is None ==> old(self)@.nodes[i as int].may_draw(d)
                    &&& final(self)@.nodes == old(self)@.nodes.update(i as int, node)
                    &&& final(log).packets() == packets
                    &&& error_of(r) == e
                },
    {
        reveal(update_one);
        let none: Vec<String> = Vec::new();
        let ghost before_nodes = self@.nodes;
        let ghost node = self.nodes@[i as int]@;
        let ghost change = change_of(old_neighbors, old(self)@.links);
        assert(before_nodes[i as int] == node);
        let drawn: NodeDraws;
        let numbers: &NodeDraws = match draws {
            Some(d) => d,
            None => {
                drawn = self.nodes[i].draw();
                &drawn
            },
        };
        let option = match old_neighbors {
            Some(o) => {
                let old_list = list_of(o, self.nodes[i].id.as_str(), &none);
                let new_list = list_of(&self.neighbors, self.nodes[i].id.as_str(), &none);
                match UpdateOption::new(old_list, new_list, table) {
                    Ok(o) => {
                        proof {
                            let lost = lost_names(old_list.deep_view(), new_list.deep_view());
                            assert(o.vids@ =~= Seq::new(lost.len(), |k: int| table.vids()[lost[k]]));
                        }
                        Some(o)
                    },
                    Err(e) => {
                        proof {
                            assert(self@.nodes =~= before_nodes.update(i as int, node));
                            assert(update_one(
                                node,
                                old(log).packets(),
                                cur_cycle,
                                numbers@,
                                change,
                                table.vids(),
                                table.pids(),
                            ) == (node, old(log).packets(), Some(e)));
                        }
                        return Err(e);
                    },
                }
            },
            None => None,
        };
        let told: Option<&UpdateOption> = option.as_ref();
        let r = self.nodes[i].update_with(cur_cycle, told, numbers, table, log);
        assert(self@.nodes =~= before_nodes.update(i as int, self.nodes@[i as int]@));
        assert(update_one(
            node,
            old(log).packets(),
            cur_cycle,
            numbers@,
            change,
            table.vids(),
            table.pids(),
        ) == (self.nodes@[i as int]@, log.packets(), error_of(r)));
        r
    }

    /// The first half of a cycle: the links change if the cycle brings a
    /// change, then each node has its cycle and is told which neighbours
    /// it has lost. Each node draws the numbers for its choices.
    pub fn update_nodes(&mut self, cur_cycle: u32, table: &VidTable, log: &mut Log) -> (r: Result<
        (),
        SimError,
    >)
        requires
            old(self).wf(),
            old(log).wf(),
            table.wf(),
        ensures
            final(self).wf(),
            final(log).wf(),
            final(log).collisions() == old(log).collisions(),
            final(self).rec_table == old(self).rec_table,
            exists|draws: Seq<Draws>|
                drawn_well(old(self)@.nodes, draws, Seq::empty()) && (
                    final(self)@,
                    final(log).packets(),
                    error_of(r),
                ) == old(self)@.update_nodes(
                    links_at(old(self).rec_table, cur_cycle),
                    old(log).packets(),
                    cur_cycle,
                    draws,
                    table.vids(),
                    table.pids(),
                ),
    {
        self.update_nodes_by(cur_cycle, None, table, log)
    }

    /// The first half of a cycle, with the numbers that decide the choices
    /// of the nodes, one set for each node in the order of the nodes. A node
    /// without numbers draws them.
    pub fn update_nodes_with(
        &mut self,
        cur_cycle: u32,
        draws: &Vec<NodeDraws>,
        table: &VidTable,
        log: &mut Log,
    ) -> (r: Result<(), SimError>)
        requires
            old(self).wf(),
            old(log).wf(),
            table.wf(),
            forall|i: int| 0 <= i < draws@.len() ==> (#[trigger] draws@[i]).backoff <= 0x8000_0000,
        ensures
            final(self).wf(),
            final(log).wf(),
            final(log).collisions() == old(log).collisions(),
            final(self).rec_table == old(self).rec_table,
            exists|ds: Seq<Draws>|
                agree(ds, draws.deep_view()) && drawn_well(
                    old(self)@.nodes,
                    ds,
                    draws.deep_view(),
                ) && (final(self)@, final(log).packets(), error_of(r)) == old(self)@.update_nodes(
                    links_at(old(self).rec_table, cur_cycle),
                    old(log).packets(),
                    cur_cycle,
                    ds,
                    table.vids(),
                    table.pids(),
                ),
    {
        self.update_nodes_by(cur_cycle, Some(draws), table, log)
    }

    fn update_nodes_by(
        &mut self,
        cur_cycle: u32,
        given: Option<&Vec<NodeDraws>>,
        table: &VidTable,
        log: &mut Log,
    ) -> (r: Result<(), SimError>)
        requires
            old(self).wf(),
            old(log).wf(),
            table.wf(),
            given matches Some(g) ==> forall|i: int|
                0 <= i < g@.len() ==> (#[trigger] g@[i]).backoff <= 0x8000_0000,
        ensures
            final(self).wf(),
            final(log).wf(),
            final(log).collisions() == old(log).collisions(),
            final(self).rec_table == old(self).rec_table,
            exists|ds: Seq<Draws>|
                (given matches Some(g) ==> agree(ds, g.deep_view())) && drawn_well(
                    old(self)@.nodes,
                    ds,
                    given_draws(given),
                ) && (final(self)@, final(log).packets(), error_of(r)) == old(self)@.update_nodes(
                    links_at(old(self).rec_table, cur_cycle),
                    old(log).packets(),
                    cur_cycle,
                    ds,
                    table.vids(),
                    table.pids(),
                ),
    {
        let mut old_neighbors: Neighbors = StrMap::new();
        let changed = match self.rec_table.table.get(&cur_cycle) {
            Some(update) => {
                old_neighbors = copy_neighbors(&update.new_neighbors);
                std::mem::swap(&mut self.neighbors, &mut old_neighbors);
                true
            },
            None => false,
        };
        let ghost change: Option<(Links, Links)> = if changed {
            Some((old(self)@.links, self@.links))
        } else {
            None
        };
        let ghost links = self@.links;
        let ghost mut draws: Seq<Draws> = Seq::empty();
        let total = self.nodes.len();
        let mut i: usize = 0;
        while i < total
            invariant
                self.wf(),
                log.wf(),
                table.wf(),
                old_neighbors.wf(),
                given matches Some(g) ==> forall|k: int|
                    0 <= k < g@.len() ==> (#[trigger] g@[k]).backoff <= 0x8000_0000,
                log.collisions() == old(log).collisions(),
                self.rec_table == old(self).rec_table,
                self.flit_buffers == old(self).flit_buffers,
                total == old(self).nodes@.len(),
                self.nodes@.len() == total,
                self@.links == links,
                links == (match links_at(old(self).rec_table, cur_cycle) {
                    Some(l) => l,
                    None => old(self)@.links,
                }),
                changed == links_at(old(self).rec_table, cur_cycle) is Some,
                changed ==> neighbor_map(old_neighbors) == old(self)@.links,
                change == (if changed {
                    Some((neighbor_map(old_neighbors), links))
                } else {
                    None::<(Links, Links)>
                }),
                i <= total,
                draws.len() == i,
                given matches Some(g) ==> forall|k: int|
                    0 <= k < i && k < g@.len() ==> #[trigger] draws[k] == g@[k]@,
                drawn_well(old(self)@.nodes, draws, given_draws(given)),
                forall|k: int| i <= k < total ==> #[trigger] self@.nodes[k] == old(self)@.nodes[k],
                (self@.nodes, log.packets(), None::<SimError>) == update_all(
                    old(self)@.nodes,
                    i as int,
                    old(log).packets(),
                    cur_cycle,
                    draws,
                    change,
                    table.vids(),
                    table.pids(),
                ),
            decreases total - i,
        {
            let ghost before_nodes = self@.nodes;
            let ghost before_log = log.packets();
            let numbers: Option<&NodeDraws> = match given {
                Some(g) => if i < g.len() {
                    Some(&g[i])
                } else {
                    None
                },
                None => None,
            };
            let r = self.update_at(
                i,
                cur_cycle,
                if changed {
                    Some(&old_neighbors)
                } else {
                    None
                },
                numbers,
                table,
                log,
            );
            proof {
                let d = choose|d: Draws|
                    {
                        let (node, packets, e) = #[trigger] update_one(
                            before_nodes[i as int],
                            before_log,
                            cur_cycle,
                            d,
                            change,
                            table.vids(),
                            table.pids(),
                        );
                        &&& numbers matches Some(x) ==> d == x@
                        &&& numbers is None ==> before_nodes[i as int].may_draw(d)
                        &&& self@.nodes == before_nodes.update(i as int, node)
                        &&& log.packets() == packets
                        &&& error_of(r) == e
                    };
                let all = draws.push(d);
                lemma_update_all_prefix(
                    old(self)@.nodes,
                    i as int,
                    old(log).packets(),
                    cur_cycle,
                    draws,
                    all,
                    change,
                    table.vids(),
                    table.pids(),
                );
                assert(update_all(
                    old(self)@.nodes,
                    i + 1,
                    old(log).packets(),
                    cur_cycle,
                    all,
                    change,
                    table.vids(),
                    table.pids(),
                ) == (self@.nodes, log.packets(), error_of(r)));
                draws = all;
                if r is Err {
                    lemma_update_all_stops(
                        old(self)@.nodes,
                        i + 1,
                        total as int,
                        old(log).packets(),
                        cur_cycle,
                        all,
                        change,
                        table.vids(),
                        table.pids(),
                    );
                }
            }
            if let Err(e) = r {
                proof {
                    let rest = given_draws(given);
                    let full = completed(draws, rest);
                    assert(drawn_well(old(self)@.nodes, full, rest)) by {
                        assert forall|k: int|
                            rest.len() <= k < full.len() && k < old(self)@.nodes.len() implies (
                        #[trigger] old(self)@.nodes[k]).may_draw(full[k]) by {
                            assert(full == draws);
                        }
                    }
                    lemma_update_all_prefix(
                        old(self)@.nodes,
                        i + 1,
                        old(log).packets(),
                        cur_cycle,
                        draws,
                        full,
                        change,
                        table.vids(),
                        table.pids(),
                    );
                    lemma_update_all_stops(
                        old(self)@.nodes,
                        i + 1,
                        total as int,
                        old(log).packets(),
                        cur_cycle,
                        full,
                        change,
                        table.vids(),
                        table.pids(),
                    );
                    lemma_update_nodes_result(
                        old(self)@,
                        self@,
                        links_at(old(self).rec_table, cur_cycle),
                        change,
                        old(log).packets(),
                        log.packets(),
                        Some(e),
                        cur_cycle,
                        full,
                        table.vids(),
                        table.pids(),
                    );
                }
                return Err(e);
            }
            i = i + 1;
        }
        proof {
            let rest = given_draws(given);
            let full = completed(draws, rest);
            assert(drawn_well(old(self)@.nodes, full, rest)) by {
                assert forall|k: int|
                    rest.len() <= k < full.len() && k < old(self)@.nodes.len() implies (
                #[trigger] old(self)@.nodes[k]).may_draw(full[k]) by {
                    assert(full == draws);
                }
            }
            lemma_update_all_prefix(
                old(self)@.nodes,
                total as int,
                old(log).packets(),
                cur_cycle,
                draws,
                full,
                change,
                table.vids(),
                table.pids(),
            );
            lemma_update_nodes_result(
                old(self)@,
                self@,
                links_at(old(self).rec_table, cur_cycle),
                change,
                old(log).packets(),
                log.packets(),
                None,
                cur_cycle,
                full,
                table.vids(),
                table.pids(),
            );
        }
        Ok(())
    }

    /// One cycle of the system; each node draws the numbers for its
    /// choices.
    pub fn run_cycle(&mut self, cur_cycle: u32, table: &VidTable, log: &mut Log) -> (r: Result<
        (),
        SimError,
    >)
        requires
            old(self).wf(),
            old(log).wf(),
            table.wf(),
        ensures
            final(self).wf(),
            final(log).wf(),
            final(self).rec_table == old(self).rec_table,
            exists|draws: Seq<Draws>|
                drawn_well(old(self)@.nodes, draws, Seq::empty()) && (
                    final(self)@,
                    final(log).packets(),
                    final(log).collisions(),
                    error_of(r),
                ) == old(self)@.run_cycle(
                    links_at(old(self).rec_table, cur_cycle),
                    old(log).packets(),
                    old(log).collisions(),
                    cur_cycle,
                    draws,
                    table.vids(),
                    table.pids(),
                ),
    {
        self.run_cycle_by(cur_cycle, None, table, log)
    }

    /// One cycle of the system, with the numbers that decide the choices of
    /// the nodes, one set for each node in the order of the nodes. A node
    /// without numbers draws them.
    pub fn run_cycle_with(
        &mut self,
        cur_cycle: u32,
        draws: &Vec<NodeDraws>,
        table: &VidTable,
        log: &mut Log,
    ) -> (r: Result<(), SimError>)
        requires
            old(self).wf(),
            old(log).wf(),
            table.wf(),
            forall|i: int| 0 <= i < draws@.len() ==> (#[trigger] draws@[i]).backoff <= 0x8000_0000,
        ensures
            final(self).wf(),
            final(log).wf(),
            final(self).rec_table == old(self).rec_table,
            exists|ds: Seq<Draws>|
                agree(ds, draws.deep_view()) && drawn_well(
                    old(self)@.nodes,
                    ds,
                    draws.deep_view(),
                ) && (
                    final(self)@,
                    final(log).packets(),
                    final(log).collisions(),
                    error_of(r),
                ) == old(self)@.run_cycle(
                    links_at(old(self).rec_table, cur_cycle),
                    old(log).packets(),
                    old(log).collisions(),
                    cur_cycle,
                    ds,
                    table.vids(),
                    table.pids(),
                ),
    {
        self.run_cycle_by(cur_cycle, Some(draws), table, log)
    }

    fn run_cycle_by(
        &mut self,
        cur_cycle: u32,
        given: Option<&Vec<NodeDraws>>,
        table: &VidTable,
        log: &mut Log,
    ) -> (r: Result<(), SimError>)
        requires
            old(self).wf(),
            old(log).wf(),
            table.wf(),
            given matches Some(g) ==> forall|i: int|
                0 <= i < g@.len() ==> (#[trigger] g@[i]).backoff <= 0x8000_0000,
        ensures
            final(self).wf(),
            final(log).wf(),
            final(self).rec_table == old(self).rec_table,
            exists|ds: Seq<Draws>|
                (given matches Some(g) ==> agree(ds, g.deep_view())) && drawn_well(
                    old(self)@.nodes,
                    ds,
                    given_draws(given),
                ) && (
                    final(self)@,
                    final(log).packets(),
                    final(log).collisions(),
                    error_of(r),
                ) == old(self)@.run_cycle(
                    links_at(old(self).rec_table, cur_cycle),
                    old(log).packets(),
                    old(log).collisions(),
                    cur_cycle,
                    ds,
                    table.vids(),
                    table.pids(),
                ),
    {
        let r = self.update_nodes_by(cur_cycle, given, table, log);
        let ghost draws = choose|ds: Seq<Draws>|
            (given matches Some(g) ==> agree(ds, g.deep_view())) && drawn_well(
                old(self)@.nodes,
                ds,
                given_draws(given),
            ) && (self@, log.packets(), error_of(r)) == old(self)@.update_nodes(
                links_at(old(self).rec_table, cur_cycle),
                old(log).packets(),
                cur_cycle,
                ds,
                table.vids(),
                table.pids(),
            );
        let res = match r {
            Err(e) => Err(e),
            Ok(()) => self.message_handle(cur_cycle, table, log),
        };
        assert((self@, log.packets(), log.collisions(), error_of(res)) == old(self)@.run_cycle(
            links_at(old(self).rec_table, cur_cycle),
            old(log).packets(),
            old(log).collisions(),
            cur_cycle,
            draws,
            table.vids(),
            table.pids(),
        ));
        res
    }
}

/// What the nodes' cycles come to is what `update_nodes` says.
proof fn lemma_update_nodes_result(
    before: NodesView,
    after: NodesView,
    rec: Option<Links>,
    change: Option<(Links, Links)>,
    packets: Packets,
    log: Packets,
    e: Option<SimError>,
    cycle: u32,
    draws: Seq<Draws>,
    vids: Map<Seq<char>, u32>,
    pids: Map<u32, Seq<char>>,
)
    requires
        after.inboxes == before.inboxes,
        after.links == (match rec {
            Some(l) => l,
            None => before.links,
        }),
        change == (match rec {
            Some(l) => Some((before.links, l)),
            None => None::<(Links, Links)>,
        }),
        (after.nodes, log, e) == update_all(
            before.nodes,
            before.nodes.len() as int,
            packets,
            cycle,
            draws,
            change,
            vids,
            pids,
        ),
    ensures
        (after, log, e) == before.update_nodes(rec, packets, cycle, draws, vids, pids),
{
}

} // verus!
