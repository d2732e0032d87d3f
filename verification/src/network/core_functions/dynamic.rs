use vstd::prelude::*;
use vstd::string::*;
use crate::error::SimError;
use crate::hardware::constants::BROADCAST_ID;
use crate::random::{random_flags, random_picks, random_ratio, random_u32};
use crate::network::core_functions::message::{
    classify, is_rec_kind, message_kind, offer_message, offer_text, reconnect_message,
    reconnect_text, MessageKind,
};
use crate::network::core_functions::multi_tree::{
    append_packets, can_make, counter_after, error_of, no_packets, one_packet, result_view,
    MultiTreeFunction, TreeView,
};
use crate::network::core_functions::packets::{
    InjectionPacket, Packet, PacketView, RoutingPacket, RoutingPacketView,
};
use crate::network::flit::{Flit, FlitView};
use crate::network::option::UpdateOption;
use crate::network::vid::{get_vid, VidTable};
use crate::sim::node_type::{NodeType, NodeTypeView};

verus! {

/// Probes without answer after which a node stops looking for a new parent
/// itself.
pub const MAX_REC_CNT: u8 = 3;

/// `s` with `x` at its end, unless `s` holds `x` already.
pub open spec fn set_insert(s: Seq<u32>, x: u32) -> Seq<u32> {
    if s.contains(x) {
        s
    } else {
        s.push(x)
    }
}

/// `s` without `x`.
pub open spec fn without(s: Seq<u32>, x: u32) -> Seq<u32>
    decreases s.len(),
{
    if s.len() == 0 {
        Seq::empty()
    } else if s.last() == x {
        without(s.drop_last(), x)
    } else {
        without(s.drop_last(), x).push(s.last())
    }
}

/// The state of a reconfiguration on one channel, at one node.
#[derive(Debug)]
pub struct RecInfo {
    pub channel_id: u8,
    /// Whether the node itself looks for a new parent.
    pub is_rec: bool,
    /// Probes sent since the node began to look.
    pub rec_cnt: u8,
    /// The children that have not yet been asked to look.
    pub children: Vec<u32>,
    /// The node that lost its parent.
    pub init_node_id: u32,
    /// The node's parent when the subtree was frozen; none at the node that
    /// lost its parent.
    pub old_parent_id: Option<u32>,
}

pub struct RecInfoView {
    pub channel_id: u8,
    pub is_rec: bool,
    pub rec_cnt: u8,
    pub children: Seq<u32>,
    pub init_node_id: u32,
    pub old_parent_id: Option<u32>,
}

impl View for RecInfo {
    type V = RecInfoView;

    open spec fn view(&self) -> RecInfoView {
        RecInfoView {
            channel_id: self.channel_id,
            is_rec: self.is_rec,
            rec_cnt: self.rec_cnt,
            children: self.children@,
            init_node_id: self.init_node_id,
            old_parent_id: self.old_parent_id,
        }
    }
}

impl DeepView for RecInfo {
    type V = RecInfoView;

    open spec fn deep_view(&self) -> RecInfoView {
        self@
    }
}

impl Clone for RecInfo {
    fn clone(&self) -> (r: Self)
        ensures
            r@ == self@,
    {
        RecInfo {
            channel_id: self.channel_id,
            is_rec: self.is_rec,
            rec_cnt: self.rec_cnt,
            children: self.children.clone(),
            init_node_id: self.init_node_id,
            old_parent_id: self.old_parent_id,
        }
    }
}

impl RecInfoView {
    pub open spec fn fresh(
        channel_id: u8,
        children: Seq<u32>,
        init_node_id: u32,
        old_parent_id: Option<u32>,
    ) -> RecInfoView {
        RecInfoView {
            channel_id,
            is_rec: false,
            rec_cnt: 0,
            children,
            init_node_id,
            old_parent_id,
        }
    }

    /// The node stops looking.
    pub open spec fn end(self) -> RecInfoView {
        if self.is_rec {
            RecInfoView { is_rec: false, rec_cnt: 0, ..self }
        } else {
            self
        }
    }

    /// The node begins to look; one that looks already counts a probe, up to
    /// the largest count.
    pub open spec fn begin(self) -> RecInfoView {
        if !self.is_rec {
            RecInfoView { is_rec: true, rec_cnt: 0, ..self }
        } else if self.rec_cnt < u8::MAX {
            RecInfoView { rec_cnt: (self.rec_cnt + 1) as u8, ..self }
        } else {
            self
        }
    }
}

/// The state of a dynamic core: a multi-tree core, and for each channel the
/// root of the tree that the node is in, the node's children, and the
/// reconfiguration that the node takes part in, if any.
pub struct DynamicView {
    pub tree: TreeView,
    pub root_ids: Seq<u32>,
    pub children: Seq<Seq<u32>>,
    pub rec_info: Seq<Option<RecInfoView>>,
}

/// One packet with `message` for each of `kids`, each from `src_id` and on
/// its way to the child itself.
pub open spec fn fan_out(
    t: TreeView,
    src_id: u32,
    kids: Seq<u32>,
    channel_id: u8,
    message: Seq<char>,
) -> (TreeView, Seq<RoutingPacketView>)
    decreases kids.len(),
{
    if kids.len() == 0 {
        (t, Seq::empty())
    } else {
        let (t1, out) = fan_out(t, src_id, kids.drop_last(), channel_id, message);
        let (t2, q) = t1.gen(src_id, kids.last(), kids.last(), channel_id, message);
        (t2, out.push(q))
    }
}

/// Making packets changes the packet number alone.
pub proof fn lemma_fan_out(
    t: TreeView,
    src_id: u32,
    kids: Seq<u32>,
    channel_id: u8,
    message: Seq<char>,
)
    ensures
        fan_out(t, src_id, kids, channel_id, message).0 == (TreeView {
            packet_num_cnt: fan_out(t, src_id, kids, channel_id, message).0.packet_num_cnt,
            ..t
        }),
        fan_out(t, src_id, kids, channel_id, message).1.len() == kids.len(),
    decreases kids.len(),
{
    if kids.len() > 0 {
        lemma_fan_out(t, src_id, kids.drop_last(), channel_id, message);
    }
}

pub type RecOutcome = Result<(bool, Seq<RoutingPacketView>), SimError>;

impl DynamicView {
    pub open spec fn wf(self) -> bool {
        &&& self.tree.wf()
        &&& self.root_ids.len() == self.tree.channel_num
        &&& self.children.len() == self.tree.channel_num
        &&& self.rec_info.len() == self.tree.channel_num
    }

    /// The core as it starts: the root of each channel's tree is the
    /// channel's coordinator; there are no children and no reconfiguration.
    pub open spec fn initial(node_type: NodeTypeView, channel_num: u8, id: u32) -> DynamicView {
        let n = channel_num as nat;
        DynamicView {
            tree: TreeView::initial(node_type, channel_num, id),
            root_ids: Seq::new(n, |i: int| (i + 1) as u32),
            children: Seq::new(n, |i: int| Seq::<u32>::empty()),
            rec_info: Seq::new(n, |i: int| None::<RecInfoView>),
        }
    }

    pub open spec fn with_tree(self, tree: TreeView) -> DynamicView {
        DynamicView { tree, ..self }
    }

    pub open spec fn with_child(self, c: int, child: u32) -> DynamicView {
        DynamicView {
            children: self.children.update(c, set_insert(self.children[c], child)),
            ..self
        }
    }

    pub open spec fn with_info(self, c: int, info: RecInfoView) -> DynamicView {
        DynamicView { rec_info: self.rec_info.update(c, Some(info)), ..self }
    }

    /// The subtree below a lost parent is frozen: the node notes who lost
    /// the parent and takes that node for the root, tells its children, and
    /// answers towards the sender if it has none.
    pub open spec fn on_rec(self, p: RoutingPacketView) -> (DynamicView, RecOutcome) {
        let c = p.channel_id as int;
        let kids = self.children[c];
        let parent = self.tree.parent_ids[c];
        let (t1, out1) = fan_out(self.tree, p.source_id, kids, p.channel_id, "rec"@);
        let (t2, out2) = if kids.len() == 0 {
            let (t, q) = t1.gen(self.tree.id, p.source_id, parent, p.channel_id, "recr"@);
            (t, out1.push(q))
        } else {
            (t1, out1)
        };
        (
            DynamicView {
                tree: t2,
                root_ids: self.root_ids.update(c, p.source_id),
                rec_info: self.rec_info.update(
                    c,
                    Some(RecInfoView::fresh(p.channel_id, kids, p.source_id, Some(parent))),
                ),
                ..self
            },
            Ok((true, out2)),
        )
    }

    /// The node begins to look for a new parent and asks every neighbour,
    /// in the name of the node that lost its parent.
    pub open spec fn begin_search(self, c: u8, info: RecInfoView) -> (DynamicView, RecOutcome) {
        let (t, q) = self.tree.gen(
            self.tree.id,
            BROADCAST_ID,
            BROADCAST_ID,
            c,
            reconnect_text(info.init_node_id),
        );
        (self.with_tree(t).with_info(c as int, info.begin()), Ok((true, seq![q])))
    }

    /// The answer of a leaf reaches the node that lost its parent, which
    /// begins to look for a new one; on its way there it is passed on.
    pub open spec fn on_recr(self, p: RoutingPacketView) -> (DynamicView, RecOutcome) {
        let c = p.channel_id as int;
        if p.dest_id == self.tree.id {
            match self.rec_info[c] {
                None => (self, Ok((true, Seq::empty()))),
                Some(info) => if info.init_node_id != self.tree.id {
                    (self, Err(SimError::UnexpectedMessage))
                } else {
                    self.begin_search(p.channel_id, info)
                },
            }
        } else {
            let (t, out) = self.tree.route(p);
            (self.with_tree(t), Ok((true, out)))
        }
    }

    /// The search passes to this node.
    pub open spec fn on_tf(self, p: RoutingPacketView) -> (DynamicView, RecOutcome) {
        match self.rec_info[p.channel_id as int] {
            None => (self, Ok((true, Seq::empty()))),
            Some(info) => self.begin_search(p.channel_id, info),
        }
    }

    /// The search has failed below a child: the next child is asked to
    /// look; when none is left the node stops looking and reports the
    /// failure to its old parent, if it had one.
    pub open spec fn on_fl(self, p: RoutingPacketView) -> (DynamicView, RecOutcome) {
        let c = p.channel_id as int;
        match self.rec_info[c] {
            None => (self, Ok((true, Seq::empty()))),
            Some(info) => if info.children.len() == 0 {
                let s = self.with_info(c, info.end());
                match info.old_parent_id {
                    Some(old_parent) => {
                        let (t, q) = self.tree.gen(
                            self.tree.id,
                            old_parent,
                            old_parent,
                            p.channel_id,
                            "fl"@,
                        );
                        (s.with_tree(t), Ok((true, seq![q])))
                    },
                    None => (s, Ok((true, Seq::empty()))),
                }
            } else {
                let next = info.children[0];
                let rest = info.children.subrange(1, info.children.len() as int);
                let (t, q) = self.tree.gen(self.tree.id, next, next, p.channel_id, "tf"@);
                (
                    self.with_tree(t).with_info(c, RecInfoView { children: rest, ..info }),
                    Ok((true, seq![q])),
                )
            },
        }
    }

    /// A frozen node asks for a new parent. A node outside the frozen
    /// subtree offers itself, with the root of its tree; a frozen node
    /// does so only if the asking subtree was frozen by a node with a
    /// larger id than its own.
    pub open spec fn on_reconnect(self, p: RoutingPacketView, init: u32) -> (
        DynamicView,
        RecOutcome,
    ) {
        let c = p.channel_id as int;
        let silent = self.rec_info[c] matches Some(info) && init <= info.init_node_id;
        if silent {
            (self, Ok((true, Seq::empty())))
        } else {
            let (t, q) = self.tree.gen(
                self.tree.id,
                p.source_id,
                p.source_id,
                p.channel_id,
                offer_text(self.root_ids[c]),
            );
            (self.with_tree(t), Ok((true, seq![q])))
        }
    }

    /// A node offers itself as parent. Only a frozen node listens, and not
    /// to an offer from its own tree. The root offered must be smaller than
    /// the node's own; the node takes it, and the offering node as parent.
    /// If it had a parent when it was frozen, it tells the new parent that
    /// it is now its child, tells its children the new root, takes the old
    /// parent as a child and hands the offer on to it. Otherwise it tells
    /// its children the new root.
    pub open spec fn on_offer(self, p: RoutingPacketView, root: u32) -> (DynamicView, RecOutcome) {
        let c = p.channel_id as int;
        match self.rec_info[c] {
            None => (self, Ok((true, Seq::empty()))),
            Some(info) => if root == self.root_ids[c] {
                (self, Ok((true, Seq::empty())))
            } else if root > self.root_ids[c] {
                (self, Err(SimError::RootOrder))
            } else {
                let t0 = TreeView {
                    parent_ids: self.tree.parent_ids.update(c, p.source_id),
                    ..self.tree
                };
                let (t1, out1) = if info.old_parent_id is Some {
                    let (t, q) = t0.gen(
                        self.tree.id,
                        p.source_id,
                        p.source_id,
                        p.channel_id,
                        "pset"@,
                    );
                    (t, seq![q])
                } else {
                    (t0, Seq::empty())
                };
                let (t2, out2) = fan_out(t1, root, self.children[c], p.channel_id, "rset"@);
                let s = DynamicView { root_ids: self.root_ids.update(c, root), ..self };
                match info.old_parent_id {
                    Some(old_parent) => {
                        let (t3, q) = t2.gen(
                            self.tree.id,
                            old_parent,
                            old_parent,
                            p.channel_id,
                            offer_text(root),
                        );
                        (
                            s.with_tree(t3).with_child(c, old_parent),
                            Ok((true, (out1 + out2).push(q))),
                        )
                    },
                    None => (s.with_tree(t2), Ok((true, out1 + out2))),
                }
            },
        }
    }

    /// A node has taken this node as parent: it is a child now, and one to
    /// ask when a search passes on.
    pub open spec fn on_pset(self, p: RoutingPacketView) -> (DynamicView, RecOutcome) {
        let c = p.channel_id as int;
        let s = self.with_child(c, p.source_id);
        match self.rec_info[c] {
            None => (s, Ok((true, Seq::empty()))),
            Some(info) => (
                s.with_info(
                    c,
                    RecInfoView { children: set_insert(info.children, p.source_id), ..info },
                ),
                Ok((true, Seq::empty())),
            ),
        }
    }

    /// The root has changed: the node takes the packet's source for the
    /// root and tells its children.
    pub open spec fn on_rset(self, p: RoutingPacketView) -> (DynamicView, RecOutcome) {
        let c = p.channel_id as int;
        let (t, out) = fan_out(self.tree, p.source_id, self.children[c], p.channel_id, "rset"@);
        (
            DynamicView { tree: t, root_ids: self.root_ids.update(c, p.source_id), ..self },
            Ok((true, out)),
        )
    }

    /// What the core does with a packet of the reconfiguration. Any other
    /// packet is left to the join protocol, which the `false` says. On an
    /// error the core is as before.
    pub open spec fn rec_step(self, p: RoutingPacketView) -> (DynamicView, RecOutcome) {
        let kind = message_kind(p.message);
        if !is_rec_kind(kind) {
            (self, Ok((false, Seq::empty())))
        } else if kind is Malformed {
            (self, Err(SimError::MalformedMessage))
        } else if p.channel_id >= self.tree.channel_num {
            (self, Err(SimError::BadChannel))
        } else {
            match kind {
                MessageKind::Rec => self.on_rec(p),
                MessageKind::Recr => self.on_recr(p),
                MessageKind::Tf => self.on_tf(p),
                MessageKind::Fl => self.on_fl(p),
                MessageKind::Reconnect(init) => self.on_reconnect(p, init),
                MessageKind::Offer(root) => self.on_offer(p, root),
                MessageKind::Pset => self.on_pset(p),
                _ => self.on_rset(p),
            }
        }
    }

    /// Whether a packet of the join protocol brings a new child: a join
    /// request that the channel's coordinator gets straight from its source,
    /// or that a router passes on.
    pub open spec fn new_child(self, p: RoutingPacketView) -> Option<u32> {
        if !(join_is_jreq(p.message)) || p.dest_id == BROADCAST_ID {
            None
        } else if self.tree.node_type is Coordinator {
            if p.dest_id == self.tree.id && p.channel_id + 1 == self.tree.id && p.source_id
                == p.prev_id {
                Some(p.source_id)
            } else {
                None
            }
        } else if p.dest_id != self.tree.id {
            Some(p.prev_id)
        } else {
            None
        }
    }

    /// What the core does with a packet of the join protocol: what a
    /// multi-tree core does, and it notes a new child.
    pub open spec fn join_step(self, p: RoutingPacketView, pick: u32) -> (
        DynamicView,
        Result<Seq<RoutingPacketView>, SimError>,
    ) {
        let (t, r) = match self.tree.node_type {
            NodeTypeView::Coordinator => self.tree.at_coordinator(p, pick),
            NodeTypeView::Router => self.tree.at_router(p, pick),
            _ => (self.tree, Err(SimError::UnknownNodeType)),
        };
        let s = self.with_tree(t);
        match (r, self.new_child(p)) {
            (Ok(_), Some(child)) => (s.with_child(p.channel_id as int, child), r),
            _ => (s, r),
        }
    }

    /// What the core does with a packet that came in: nothing unless the
    /// packet names it, or every node, as next hop.
    pub open spec fn process(self, p: RoutingPacketView, pick: u32) -> (
        DynamicView,
        Result<Seq<RoutingPacketView>, SimError>,
    ) {
        if p.next_id != self.tree.id && p.next_id != BROADCAST_ID {
            (self, Ok(Seq::empty()))
        } else {
            let (s, r) = self.rec_step(p);
            match r {
                Err(e) => (s, Err(e)),
                Ok((true, out)) => (s, Ok(out)),
                Ok((false, _)) => self.join_step(p, pick),
            }
        }
    }

    /// What a node in a reconfiguration on channel `c` does at the start
    /// of a cycle. After `MAX_REC_CNT` probes without answer it stops
    /// looking and passes the search to its next child; without a child
    /// left it reports the failure towards the node that lost its parent.
    /// Before that a node that looks asks every neighbour again when
    /// `probe` says so, and counts the probe.
    pub open spec fn probe_channel(self, c: int, probe: bool) -> DynamicView {
        match self.rec_info[c] {
            None => self,
            Some(info) => if info.rec_cnt >= MAX_REC_CNT {
                let init = info.init_node_id;
                if info.children.len() == 0 {
                    let (t, q) = self.tree.gen(self.tree.id, init, init, c as u8, "fl"@);
                    self.with_tree(TreeView { send: t.send.push(q), ..t }).with_info(
                        c,
                        (RecInfoView { rec_cnt: 0, ..info }).end(),
                    )
                } else {
                    let next = info.children[0];
                    let rest = info.children.subrange(1, info.children.len() as int);
                    let (t, q) = self.tree.gen(self.tree.id, next, next, c as u8, "tf"@);
                    self.with_tree(TreeView { send: t.send.push(q), ..t }).with_info(
                        c,
                        (RecInfoView { rec_cnt: 0, children: rest, ..info }).end(),
                    )
                }
            } else if probe && info.is_rec {
                let (t, q) = self.tree.gen(
                    self.tree.id,
                    BROADCAST_ID,
                    BROADCAST_ID,
                    c as u8,
                    reconnect_text(info.init_node_id),
                );
                self.with_tree(TreeView { send: t.send.push(q), ..t }).with_info(
                    c,
                    RecInfoView { rec_cnt: (info.rec_cnt + 1) as u8, ..info },
                )
            } else {
                self
            },
        }
    }

    /// `probe_channel` on the first `n` channels, in rising order.
    pub open spec fn probe_channels(self, probes: Seq<bool>, n: int) -> DynamicView
        decreases n,
    {
        if n <= 0 {
            self
        } else {
            self.probe_channels(probes, n - 1).probe_channel(
                n - 1,
                n - 1 < probes.len() && probes[n - 1],
            )
        }
    }

    /// The node has lost its parent on channel `c`: it has none now and has
    /// not joined the channel any more, is the root of what is left of its
    /// tree, and freezes the subtree below it.
    pub open spec fn lose_parent(self, c: int) -> DynamicView {
        let kids = self.children[c];
        let id = self.tree.id;
        let t0 = TreeView {
            parent_ids: self.tree.parent_ids.update(c, 0),
            joined: self.tree.joined.update(c, false),
            ..self.tree
        };
        let (t1, out) = fan_out(t0, id, kids, c as u8, "rec"@);
        DynamicView {
            tree: TreeView { send: t1.send + out, ..t1 },
            root_ids: self.root_ids.update(c, id),
            rec_info: self.rec_info.update(
                c,
                Some(RecInfoView::fresh(c as u8, kids, id, None)),
            ),
            ..self
        }
    }

    /// `lose_parent` on each of the first `n` channels whose parent is
    /// `gone`, in rising order.
    pub open spec fn lose_parents(self, gone: u32, n: int) -> DynamicView
        decreases n,
    {
        if n <= 0 {
            self
        } else {
            let s = self.lose_parents(gone, n - 1);
            if s.tree.parent_ids[n - 1] == gone {
                s.lose_parent(n - 1)
            } else {
                s
            }
        }
    }

    /// A neighbour is gone: the channels on which it was the parent are
    /// reconfigured, and it is no child any more.
    pub open spec fn lose_neighbor(self, gone: u32) -> DynamicView {
        let s = self.lose_parents(gone, self.tree.channel_num as int);
        DynamicView {
            children: Seq::new(s.children.len(), |c: int| without(s.children[c], gone)),
            ..s
        }
    }

    /// `lose_neighbor` for each of the neighbours that are gone, in order.
    pub open spec fn lose_neighbors(self, lost: Seq<u32>) -> DynamicView
        decreases lost.len(),
    {
        if lost.len() == 0 {
            self
        } else {
            self.lose_neighbors(lost.drop_last()).lose_neighbor(lost.last())
        }
    }

    /// The flit of a packet that is cut through this node, as it leaves,
    /// and the core after it: as in a multi-tree core, and a last hop that
    /// is not the parent is a child now.
    pub open spec fn forward(
        self,
        f: FlitView,
        vids: Map<Seq<char>, u32>,
        pids: Map<u32, Seq<char>>,
    ) -> (DynamicView, Result<FlitView, SimError>) {
        let (t, out) = self.tree.forward(f, vids, pids);
        let s = self.with_tree(t);
        if out is Ok && vids[f.prev_id().unwrap()] != self.tree.parent_ids[f.channel_id().unwrap() as int] {
            (s.with_child(f.channel_id().unwrap() as int, vids[f.prev_id().unwrap()]), out)
        } else {
            (s, out)
        }
    }

    /// Whether no reconfiguration has reached the node yet.
    pub open spec fn untouched(self) -> bool {
        forall|c: int| 0 <= c < self.rec_info.len() ==> self.rec_info[c] is None
    }

    /// The packets that came in are worked off in their order, as in a
    /// multi-tree core.
    pub open spec fn drain(self, picks: Seq<u32>, i: int) -> (DynamicView, Option<SimError>)
        decreases self.tree.received.len(),
    {
        if self.tree.received.len() == 0 {
            (self, None)
        } else {
            let rest = self.tree.received.subrange(1, self.tree.received.len() as int);
            let (s, r) = self.with_tree(TreeView { received: rest, ..self.tree }).process(
                self.tree.received[0],
                TreeView::pick_at(picks, i),
            );
            match r {
                Err(e) => (s.with_tree(TreeView { received: rest, ..s.tree }), Some(e)),
                Ok(out) => s.with_tree(
                    TreeView { received: rest, send: s.tree.send + out, ..s.tree },
                ).drain(picks, i + 1),
            }
        }
    }

    /// One cycle of the core: with `emit`, a node that no reconfiguration
    /// has reached and that lacks a parent asks for one; the
    /// reconfigurations under way go on; the loss of neighbours starts new
    /// ones; then the packets that came in are worked off.
    pub open spec fn update(
        self,
        emit: bool,
        pick: u32,
        probes: Seq<bool>,
        lost: Seq<u32>,
        picks: Seq<u32>,
    ) -> (DynamicView, Option<SimError>) {
        self.before_drain(emit, pick, probes, lost).drain(picks, 0)
    }

    /// The core in the middle of a cycle, before the packets that came in
    /// are worked off.
    pub open spec fn before_drain(
        self,
        emit: bool,
        pick: u32,
        probes: Seq<bool>,
        lost: Seq<u32>,
    ) -> DynamicView {
        let s0 = self.with_tree(self.tree.ask_for_parent(emit && self.untouched(), pick));
        s0.probe_channels(probes, self.tree.channel_num as int).lose_neighbors(lost)
    }

    /// Whether the packet can leave the node on a joined channel without
    /// parent: it lets the node into a channel on which it has none, or it
    /// offers a parent without id.
    pub open spec fn breaks_parents(self, p: RoutingPacketView) -> bool {
        self.tree.lets_in_without_parent(p) || (message_kind(p.message) is Offer && p.source_id
            == 0)
    }

    /// Whether none of the packets that came in, each taken as the core is
    /// when its turn comes, can leave the node on a joined channel without
    /// parent.
    pub open spec fn drain_safe(self, picks: Seq<u32>, i: int) -> bool
        decreases self.tree.received.len(),
    {
        if self.tree.received.len() == 0 {
            true
        } else {
            let rest = self.tree.received.subrange(1, self.tree.received.len() as int);
            let s0 = self.with_tree(TreeView { received: rest, ..self.tree });
            let (s, r) = s0.process(self.tree.received[0], TreeView::pick_at(picks, i));
            !s0.breaks_parents(self.tree.received[0]) && (match r {
                Err(e) => true,
                Ok(out) => s.with_tree(
                    TreeView { received: rest, send: s.tree.send + out, ..s.tree },
                ).drain_safe(picks, i + 1),
            })
        }
    }
}

/// Whether a message is a join request.
pub open spec fn join_is_jreq(m: Seq<char>) -> bool {
    message_kind(m) is Jreq
}

/// The outcome of a step of the reconfiguration as a mathematical value.
pub open spec fn rec_view(r: Result<(bool, Vec<RoutingPacket>), SimError>) -> RecOutcome {
    match r {
        Ok((b, v)) => Ok((b, v.deep_view())),
        Err(e) => Err(e),
    }
}

fn holds_id(v: &Vec<u32>, x: u32) -> (b: bool)
    ensures
        b == v@.contains(x),
{
    let mut i: usize = 0;
    while i < v.len()
        invariant
            i <= v@.len(),
            forall|j: int| 0 <= j < i ==> v@[j] != x,
        decreases v@.len() - i,
    {
        if v[i] == x {
            return true;
        }
        i = i + 1;
    }
    false
}

fn insert_id(v: &mut Vec<u32>, x: u32)
    ensures
        final(v)@ == set_insert(old(v)@, x),
{
    if !holds_id(v, x) {
        v.push(x);
    }
}

fn remove_id(v: &Vec<u32>, x: u32) -> (r: Vec<u32>)
    ensures
        r@ == without(v@, x),
{
    let mut r: Vec<u32> = Vec::new();
    let mut i: usize = 0;
    while i < v.len()
        invariant
            i <= v@.len(),
            r@ == without(v@.subrange(0, i as int), x),
        decreases v@.len() - i,
    {
        proof {
            let next = v@.subrange(0, i + 1);
            assert(next.drop_last() =~= v@.subrange(0, i as int));
        }
        if v[i] != x {
            r.push(v[i]);
        }
        i = i + 1;
    }
    assert(v@.subrange(0, v@.len() as int) =~= v@);
    r
}

impl RecInfo {
    pub fn new(channel_id: u8, children: &Vec<u32>, init_node_id: u32, old_parent_id: Option<u32>) -> (r:
        Self)
        ensures
            r@ == RecInfoView::fresh(channel_id, children@, init_node_id, old_parent_id),
    {
        Self {
            channel_id,
            is_rec: false,
            rec_cnt: 0,
            children: children.clone(),
            init_node_id,
            old_parent_id,
        }
    }

    pub fn end(&mut self)
        ensures
            final(self)@ == old(self)@.end(),
    {
        if self.is_rec {
            self.is_rec = false;
            self.rec_cnt = 0;
        }
    }

    pub fn begin(&mut self)
        ensures
            final(self)@ == old(self)@.begin(),
    {
        if !self.is_rec {
            self.is_rec = true;
            self.rec_cnt = 0;
        } else if self.rec_cnt < u8::MAX {
            self.rec_cnt = self.rec_cnt + 1;
        }
    }
}

/// The children of a node on each channel, each once, in the order in which
/// they came.
#[derive(Debug)]
pub struct ChildrenTable {
    pub table: Vec<Vec<u32>>,
}

impl View for ChildrenTable {
    type V = Seq<Seq<u32>>;

    open spec fn view(&self) -> Seq<Seq<u32>> {
        Seq::new(self.table@.len(), |c: int| self.table@[c]@)
    }
}

impl ChildrenTable {
    pub fn new(channel_num: u8) -> (r: Self)
        ensures
            r@ == Seq::new(channel_num as nat, |i: int| Seq::<u32>::empty()),
    {
        let mut table: Vec<Vec<u32>> = Vec::new();
        let mut i: u8 = 0;
        while i < channel_num
            invariant
                i <= channel_num,
                table@.len() == i,
                forall|j: int| 0 <= j < i ==> (#[trigger] table@[j])@ == Seq::<u32>::empty(),
            decreases channel_num - i,
        {
            table.push(Vec::new());
            i = i + 1;
        }
        let r = ChildrenTable { table };
        assert(r@ =~= Seq::new(channel_num as nat, |i: int| Seq::<u32>::empty()));
        r
    }

    /// Adds a child on a channel, unless it is one already.
    pub fn insert(&mut self, channel_id: u8, node_id: u32)
        requires
            channel_id < old(self)@.len(),
        ensures
            final(self)@ == old(self)@.update(
                channel_id as int,
                set_insert(old(self)@[channel_id as int], node_id),
            ),
    {
        insert_id(&mut self.table[channel_id as usize], node_id);
        assert(self@ =~= old(self)@.update(
            channel_id as int,
            set_insert(old(self)@[channel_id as int], node_id),
        ));
    }

    /// Takes the first child of a channel out.
    pub fn pop(&mut self, channel_id: u8) -> (r: Option<u32>)
        requires
            channel_id < old(self)@.len(),
        ensures
            match r {
                Some(x) => old(self)@[channel_id as int].len() > 0 && x == old(
                    self,
                )@[channel_id as int][0] && final(self)@ == old(self)@.update(
                    channel_id as int,
                    old(self)@[channel_id as int].subrange(
                        1,
                        old(self)@[channel_id as int].len() as int,
                    ),
                ),
                None => old(self)@[channel_id as int].len() == 0 && final(self)@ == old(self)@,
            },
    {
        assert(self@[channel_id as int] == self.table@[channel_id as int]@);
        if self.table[channel_id as usize].len() == 0 {
            return None;
        }
        let x = self.table[channel_id as usize].remove(0);
        assert(self@ =~= old(self)@.update(
            channel_id as int,
            old(self)@[channel_id as int].subrange(1, old(self)@[channel_id as int].len() as int),
        ));
        Some(x)
    }

    pub fn contains(&self, channel_id: u8, node_id: u32) -> (b: bool)
        requires
            channel_id < self@.len(),
        ensures
            b == self@[channel_id as int].contains(node_id),
    {
        assert(self@[channel_id as int] == self.table@[channel_id as int]@);
        holds_id(&self.table[channel_id as usize], node_id)
    }

    pub fn get(&self, channel_id: &u8) -> (r: Option<&Vec<u32>>)
        ensures
            match r {
                Some(v) => *channel_id < self@.len() && v@ == self@[*channel_id as int],
                None => *channel_id >= self@.len(),
            },
    {
        if (*channel_id as usize) < self.table.len() {
            assert(self@[*channel_id as int] == self.table@[*channel_id as int]@);
            Some(&self.table[*channel_id as usize])
        } else {
            None
        }
    }

    /// Whether the channel exists and has no child.
    pub fn is_empty(&self, channel_id: &u8) -> (b: bool)
        ensures
            b == (*channel_id < self@.len() && self@[*channel_id as int].len() == 0),
    {
        match self.get(channel_id) {
            Some(v) => v.len() == 0,
            None => false,
        }
    }

    /// Takes a node out of the children of every channel.
    pub fn forget(&mut self, node_id: u32)
        ensures
            final(self)@ == Seq::new(
                old(self)@.len(),
                |c: int| without(old(self)@[c], node_id),
            ),
    {
        let mut c: usize = 0;
        while c < self.table.len()
            invariant
                c <= self.table@.len(),
                self@.len() == old(self)@.len(),
                forall|j: int| 0 <= j < c ==> #[trigger] self@[j] == without(old(self)@[j], node_id),
                forall|j: int| c <= j < self@.len() ==> #[trigger] self@[j] == old(self)@[j],
            decreases self.table@.len() - c,
        {
            let ghost before = self@;
            assert(before[c as int] == self.table@[c as int]@);
            let kept = remove_id(&self.table[c], node_id);
            self.table[c] = kept;
            assert(self@ =~= before.update(c as int, without(before[c as int], node_id)));
            c = c + 1;
        }
        assert(self@ =~= Seq::new(old(self)@.len(), |c: int| without(old(self)@[c], node_id)));
    }
}

/// Makes one packet with `message` for each of `kids`.
fn fan_out_packets(
    tree: &mut MultiTreeFunction,
    src_id: u32,
    kids: &Vec<u32>,
    channel_id: u8,
    message: &str,
) -> (out: Vec<RoutingPacket>)
    ensures
        (final(tree)@, out.deep_view()) == fan_out(
            old(tree)@,
            src_id,
            kids@,
            channel_id,
            message@,
        ),
{
    let mut out = no_packets();
    let mut i: usize = 0;
    while i < kids.len()
        invariant
            i <= kids@.len(),
            (tree@, out.deep_view()) == fan_out(
                old(tree)@,
                src_id,
                kids@.subrange(0, i as int),
                channel_id,
                message@,
            ),
        decreases kids@.len() - i,
    {
        proof {
            let next = kids@.subrange(0, i + 1);
            assert(next.drop_last() =~= kids@.subrange(0, i as int));
        }
        let q = tree.gen_packet(src_id, kids[i], kids[i], channel_id, String::from_str(message));
        let ghost before = out.deep_view();
        out.push(q);
        assert(out.deep_view() =~= before.push(q@));
        i = i + 1;
    }
    assert(kids@.subrange(0, kids@.len() as int) =~= kids@);
    out
}

/// A routing core of the dynamic kind: a multi-tree core that mends its
/// trees when a parent is lost.
#[derive(Debug)]
pub struct DynamicFunction {
    pub tree: MultiTreeFunction,
    pub root_ids: Vec<u32>,
    pub children_ids: ChildrenTable,
    pub rec_info: Vec<Option<RecInfo>>,
}

impl View for DynamicFunction {
    type V = DynamicView;

    open spec fn view(&self) -> DynamicView {
        DynamicView {
            tree: self.tree@,
            root_ids: self.root_ids@,
            children: self.children_ids@,
            rec_info: self.rec_info.deep_view(),
        }
    }
}

impl DynamicFunction {
    /// Makes the core of a node with the routing id `id`.
    pub fn new_with(node_type: &NodeType, channel_num: u8, id: u32) -> (r: Self)
        requires
            channel_num > 0,
            node_type@ is Coordinator ==> 1 <= id <= channel_num,
        ensures
            r@ == DynamicView::initial(node_type@, channel_num, id),
            r@.wf(),
    {
        Self::around(MultiTreeFunction::new_with(node_type, channel_num, id))
    }

    fn around(tree: MultiTreeFunction) -> (r: Self)
        requires
            tree@.wf(),
        ensures
            r@.wf(),
            r@.tree == tree@,
            r@ == (DynamicView {
                tree: tree@,
                ..DynamicView::initial(tree@.node_type, tree@.channel_num, tree@.id)
            }),
    {
        let channel_num = tree.channel_num;
        let mut root_ids: Vec<u32> = Vec::new();
        let mut rec_info: Vec<Option<RecInfo>> = Vec::new();
        let mut i: u8 = 0;
        while i < channel_num
            invariant
                i <= channel_num,
                root_ids@.len() == i,
                rec_info@.len() == i,
                forall|j: int| 0 <= j < i ==> root_ids@[j] == j + 1,
                forall|j: int| 0 <= j < i ==> rec_info@[j] is None,
            decreases channel_num - i,
        {
            root_ids.push(i as u32 + 1);
            rec_info.push(None);
            i = i + 1;
        }
        let r = DynamicFunction {
            tree,
            root_ids,
            children_ids: ChildrenTable::new(channel_num),
            rec_info,
        };
        proof {
            let v = DynamicView::initial(tree@.node_type, tree@.channel_num, tree@.id);
            assert(r@.root_ids =~= v.root_ids);
            assert(r@.rec_info =~= v.rec_info);
        }
        r
    }

    /// Makes the core of a node, with the id that a multi-tree core gets.
    pub fn new(node_type: &NodeType, channel_num: u8, table: &mut VidTable) -> (r: Result<
        Self,
        SimError,
    >)
        requires
            channel_num > 0,
        ensures
            final(table).v_to_p == old(table).v_to_p,
            final(table).p_to_v == old(table).p_to_v,
            old(table).wf() ==> final(table).wf(),
            final(table).coordinator_cnt == counter_after(
                node_type@,
                channel_num,
                old(table).coordinator_cnt,
            ),
            r is Ok <==> can_make(node_type@, channel_num, old(table).coordinator_cnt),
            match r {
                Ok(f) => f@.wf() && f@ == DynamicView::initial(node_type@, channel_num, f@.tree.id)
                    && (if node_type@ is Coordinator {
                    f@.tree.id == old(table).coordinator_cnt
                } else {
                    channel_num < f@.tree.id < BROADCAST_ID
                }),
                Err(e) => e == SimError::TooManyCoordinators,
            },
    {
        let tree = MultiTreeFunction::new(node_type, channel_num, table)?;
        Ok(Self::around(tree))
    }

    pub fn is_joined(&self) -> (b: bool)
        ensures
            b == self@.tree.is_joined(),
    {
        self.tree.is_joined()
    }

    pub fn get_parent_id(&self) -> (r: Vec<Option<u32>>)
        ensures
            r@ == self@.tree.parents(),
    {
        self.tree.get_parent_id()
    }

    /// Queues a message of the node's user for sending, as a multi-tree
    /// core does.
    pub fn push_new_packet(&mut self, packet: &InjectionPacket, table: &VidTable) -> (r: Result<
        (),
        SimError,
    >)
        requires
            old(self)@.wf(),
            table.wf(),
        ensures
            final(self)@.wf(),
            if !table.vids().contains_key(packet.dest_id@) {
                r == Err::<(), SimError>(SimError::UnknownNode) && final(self)@ == old(self)@
            } else {
                let (t, e) = old(self)@.tree.push_new(
                    packet.message@,
                    table.vids()[packet.dest_id@],
                );
                final(self)@ == old(self)@.with_tree(t) && error_of(r) == e
            },
    {
        self.tree.push_new_packet(packet, table)
    }

    /// Takes the packet at the head of the queue and dresses it for the
    /// network, as a multi-tree core does.
    pub fn send_packet(&mut self, table: &VidTable) -> (r: Result<Option<Packet>, SimError>)
        requires
            old(self)@.wf(),
        ensures
            final(self)@.wf(),
            if old(self)@.tree.send.len() == 0 {
                r == Ok::<Option<Packet>, SimError>(None) && final(self)@ == old(self)@
            } else {
                &&& final(self)@ == old(self)@.with_tree(
                    TreeView {
                        send: old(self)@.tree.send.subrange(1, old(self)@.tree.send.len() as int),
                        ..old(self)@.tree
                    },
                )
                &&& match r {
                    Ok(Some(p)) => old(self)@.tree.outgoing(table.pids()) == Ok::<
                        PacketView,
                        SimError,
                    >(p@),
                    Ok(None) => false,
                    Err(e) => old(self)@.tree.outgoing(table.pids()) == Err::<PacketView, SimError>(
                        e,
                    ),
                }
            },
    {
        self.tree.send_packet(table)
    }

    /// Takes a packet from the network into the queue of packets to work
    /// off, as a multi-tree core does.
    pub fn receive_packet(&mut self, packet: &Packet, table: &VidTable) -> (r: Result<(), SimError>)
        requires
            old(self)@.wf(),
            table.wf(),
        ensures
            final(self)@.wf(),
            match RoutingPacketView::from_general(packet@, table.vids()) {
                Ok(p) => r is Ok && final(self)@ == old(self)@.with_tree(
                    TreeView { received: old(self)@.tree.received.push(p), ..old(self)@.tree },
                ),
                Err(e) => r == Err::<(), SimError>(e) && final(self)@ == old(self)@,
            },
    {
        self.tree.receive_packet(packet, table)
    }

    /// Passes on a flit of a packet that is cut through this node, as a
    /// multi-tree core does; a last hop that is not the parent is noted as
    /// a child.
    pub fn forward_flit(&mut self, flit: &Flit, table: &VidTable) -> (r: Result<Flit, SimError>)
        requires
            old(self)@.wf(),
            table.wf(),
        ensures
            final(self)@.wf(),
            ({
                let (s, out) = old(self)@.forward(flit@, table.vids(), table.pids());
                final(self)@ == s && match r {
                    Ok(f) => out == Ok::<FlitView, SimError>(f@),
                    Err(e) => out == Err::<FlitView, SimError>(e),
                }
            }),
    {
        let new_flit = self.tree.forward_flit(flit, table)?;
        let channel_id = flit.get_channel_id().unwrap();
        let prev_pid = flit.get_prev_id().unwrap();
        let prev_vid = get_vid(table, prev_pid.as_str()).unwrap();
        if prev_vid != self.tree.parent_ids[channel_id as usize] {
            self.children_ids.insert(channel_id, prev_vid);
        }
        Ok(new_flit)
    }

    fn set_info(&mut self, channel_id: u8, info: RecInfo)
        requires
            old(self)@.wf(),
            channel_id < old(self)@.tree.channel_num,
        ensures
            final(self)@ == old(self)@.with_info(channel_id as int, info@),
            final(self)@.wf(),
    {
        self.rec_info[channel_id as usize] = Some(info);
        assert(self@.rec_info =~= old(self)@.rec_info.update(channel_id as int, Some(info@)));
    }

    fn info_of(&self, channel_id: u8) -> (r: Option<RecInfo>)
        requires
            self@.wf(),
            channel_id < self@.tree.channel_num,
        ensures
            r.deep_view() == self@.rec_info[channel_id as int],
    {
        match &self.rec_info[channel_id as usize] {
            Some(info) => Some(info.clone()),
            None => None,
        }
    }

    fn kids_of(&self, channel_id: u8) -> (r: Vec<u32>)
        requires
            self@.wf(),
            channel_id < self@.tree.channel_num,
        ensures
            r@ == self@.children[channel_id as int],
    {
        assert(self@.children[channel_id as int] == self.children_ids.table@[channel_id as int]@);
        self.children_ids.table[channel_id as usize].clone()
    }

    fn begin_search(&mut self, channel_id: u8, info: RecInfo) -> (out: Result<
        (bool, Vec<RoutingPacket>),
        SimError,
    >)
        requires
            old(self)@.wf(),
            channel_id < old(self)@.tree.channel_num,
        ensures
            (final(self)@, rec_view(out)) == old(self)@.begin_search(channel_id, info@),
            final(self)@.wf(),
            final(self)@.tree.received == old(self)@.tree.received,
    {
        let mut info = info;
        let q = self.tree.gen_packet(
            self.tree.id,
            BROADCAST_ID,
            BROADCAST_ID,
            channel_id,
            reconnect_message(info.init_node_id),
        );
        info.begin();
        self.set_info(channel_id, info);
        Ok((true, one_packet(q)))
    }

    fn on_rec(&mut self, packet: &RoutingPacket) -> (out: Result<
        (bool, Vec<RoutingPacket>),
        SimError,
    >)
        requires
            old(self)@.wf(),
            packet.channel_id < old(self)@.tree.channel_num,
        ensures
            (final(self)@, rec_view(out)) == old(self)@.on_rec(packet@),
            final(self)@.wf(),
            final(self)@.tree.received == old(self)@.tree.received,
    {
        let c = packet.channel_id;
        let kids = self.kids_of(c);
        let parent = self.tree.parent_ids[c as usize];
        proof {
            lemma_fan_out(self@.tree, packet.source_id, kids@, c, "rec"@);
        }
        let mut res = fan_out_packets(&mut self.tree, packet.source_id, &kids, c, "rec");
        if kids.len() == 0 {
            let q = self.tree.gen_packet(
                self.tree.id,
                packet.source_id,
                parent,
                c,
                String::from_str("recr"),
            );
            let ghost before = res.deep_view();
            res.push(q);
            assert(res.deep_view() =~= before.push(q@));
        }
        self.set_info(c, RecInfo::new(c, &kids, packet.source_id, Some(parent)));
        self.root_ids[c as usize] = packet.source_id;
        Ok((true, res))
    }

    fn on_recr(&mut self, packet: &RoutingPacket) -> (out: Result<
        (bool, Vec<RoutingPacket>),
        SimError,
    >)
        requires
            old(self)@.wf(),
            packet.channel_id < old(self)@.tree.channel_num,
        ensures
            (final(self)@, rec_view(out)) == old(self)@.on_recr(packet@),
            final(self)@.wf(),
            final(self)@.tree.received == old(self)@.tree.received,
    {
        if packet.dest_id == self.tree.id {
            match self.info_of(packet.channel_id) {
                None => Ok((true, no_packets())),
                Some(info) => {
                    if info.init_node_id != self.tree.id {
                        return Err(SimError::UnexpectedMessage);
                    }
                    self.begin_search(packet.channel_id, info)
                },
            }
        } else {
            Ok((true, self.tree.routing(packet)))
        }
    }

    fn on_tf(&mut self, packet: &RoutingPacket) -> (out: Result<
        (bool, Vec<RoutingPacket>),
        SimError,
    >)
        requires
            old(self)@.wf(),
            packet.channel_id < old(self)@.tree.channel_num,
        ensures
            (final(self)@, rec_view(out)) == old(self)@.on_tf(packet@),
            final(self)@.wf(),
            final(self)@.tree.received == old(self)@.tree.received,
    {
        match self.info_of(packet.channel_id) {
            None => Ok((true, no_packets())),
            Some(info) => self.begin_search(packet.channel_id, info),
        }
    }

    fn on_fl(&mut self, packet: &RoutingPacket) -> (out: Result<
        (bool, Vec<RoutingPacket>),
        SimError,
    >)
        requires
            old(self)@.wf(),
            packet.channel_id < old(self)@.tree.channel_num,
        ensures
            (final(self)@, rec_view(out)) == old(self)@.on_fl(packet@),
            final(self)@.wf(),
            final(self)@.tree.received == old(self)@.tree.received,
    {
        let c = packet.channel_id;
        let mut info = match self.info_of(c) {
            None => {
                return Ok((true, no_packets()));
            },
            Some(info) => info,
        };
        if info.children.len() == 0 {
            let old_parent_id = info.old_parent_id;
            info.end();
            self.set_info(c, info);
            match old_parent_id {
                Some(old_parent) => {
                    let q = self.tree.gen_packet(
                        self.tree.id,
                        old_parent,
                        old_parent,
                        c,
                        String::from_str("fl"),
                    );
                    Ok((true, one_packet(q)))
                },
                None => Ok((true, no_packets())),
            }
        } else {
            let next_id = info.children.remove(0);
            self.set_info(c, info);
            let q = self.tree.gen_packet(self.tree.id, next_id, next_id, c, String::from_str("tf"));
            Ok((true, one_packet(q)))
        }
    }

    fn on_reconnect(&mut self, packet: &RoutingPacket, init: u32) -> (out: Result<
        (bool, Vec<RoutingPacket>),
        SimError,
    >)
        requires
            old(self)@.wf(),
            packet.channel_id < old(self)@.tree.channel_num,
        ensures
            (final(self)@, rec_view(out)) == old(self)@.on_reconnect(packet@, init),
            final(self)@.wf(),
            final(self)@.tree.received == old(self)@.tree.received,
    {
        let c = packet.channel_id;
        if let Some(info) = self.info_of(c) {
            if init <= info.init_node_id {
                return Ok((true, no_packets()));
            }
        }
        let q = self.tree.gen_packet(
            self.tree.id,
            packet.source_id,
            packet.source_id,
            c,
            offer_message(self.root_ids[c as usize]),
        );
        Ok((true, one_packet(q)))
    }

    fn on_offer(&mut self, packet: &RoutingPacket, root: u32) -> (out: Result<
        (bool, Vec<RoutingPacket>),
        SimError,
    >)
        requires
            old(self)@.wf(),
            packet.channel_id < old(self)@.tree.channel_num,
        ensures
            (final(self)@, rec_view(out)) == old(self)@.on_offer(packet@, root),
            final(self)@.wf(),
            final(self)@.tree.received == old(self)@.tree.received,
    {
        let c = packet.channel_id;
        let info = match self.info_of(c) {
            None => {
                return Ok((true, no_packets()));
            },
            Some(info) => info,
        };
        if root == self.root_ids[c as usize] {
            return Ok((true, no_packets()));
        }
        if root > self.root_ids[c as usize] {
            return Err(SimError::RootOrder);
        }
        self.root_ids[c as usize] = root;
        self.tree.parent_ids[c as usize] = packet.source_id;
        let mut res = no_packets();
        if info.old_parent_id.is_some() {
            let pset = self.tree.gen_packet(
                self.tree.id,
                packet.source_id,
                packet.source_id,
                c,
                String::from_str("pset"),
            );
            res = one_packet(pset);
        }
        let kids = self.kids_of(c);
        proof {
            lemma_fan_out(self@.tree, root, kids@, c, "rset"@);
        }
        let rsets = fan_out_packets(&mut self.tree, root, &kids, c, "rset");
        append_packets(&mut res, rsets);
        if let Some(old_parent) = info.old_parent_id {
            self.children_ids.insert(c, old_parent);
            let q = self.tree.gen_packet(
                self.tree.id,
                old_parent,
                old_parent,
                c,
                offer_message(root),
            );
            let ghost before = res.deep_view();
            res.push(q);
            assert(res.deep_view() =~= before.push(q@));
        }
        Ok((true, res))
    }

    fn on_pset(&mut self, packet: &RoutingPacket) -> (out: Result<
        (bool, Vec<RoutingPacket>),
        SimError,
    >)
        requires
            old(self)@.wf(),
            packet.channel_id < old(self)@.tree.channel_num,
        ensures
            (final(self)@, rec_view(out)) == old(self)@.on_pset(packet@),
            final(self)@.wf(),
            final(self)@.tree.received == old(self)@.tree.received,
    {
        let c = packet.channel_id;
        self.children_ids.insert(c, packet.source_id);
        if let Some(info) = self.info_of(c) {
            let mut info = info;
            insert_id(&mut info.children, packet.source_id);
            self.set_info(c, info);
        }
        Ok((true, no_packets()))
    }

    fn on_rset(&mut self, packet: &RoutingPacket) -> (out: Result<
        (bool, Vec<RoutingPacket>),
        SimError,
    >)
        requires
            old(self)@.wf(),
            packet.channel_id < old(self)@.tree.channel_num,
        ensures
            (final(self)@, rec_view(out)) == old(self)@.on_rset(packet@),
            final(self)@.wf(),
            final(self)@.tree.received == old(self)@.tree.received,
    {
        let c = packet.channel_id;
        self.root_ids[c as usize] = packet.source_id;
        let kids = self.kids_of(c);
        proof {
            lemma_fan_out(self@.tree, packet.source_id, kids@, c, "rset"@);
        }
        let res = fan_out_packets(&mut self.tree, packet.source_id, &kids, c, "rset");
        Ok((true, res))
    }

    /// Works off a packet of the reconfiguration. The `bool` says whether
    /// the packet was one; any other packet changes nothing here.
    pub fn dynamic_rec(&mut self, packet: &RoutingPacket) -> (out: Result<
        (bool, Vec<RoutingPacket>),
        SimError,
    >)
        requires
            old(self)@.wf(),
        ensures
            (final(self)@, rec_view(out)) == old(self)@.rec_step(packet@),
            final(self)@.wf(),
            final(self)@.tree.received == old(self)@.tree.received,
    {
        let kind = classify(&packet.message);
        match kind {
            MessageKind::Preq | MessageKind::Pack | MessageKind::Jreq | MessageKind::Jack
            | MessageKind::User => {
                return Ok((false, no_packets()));
            },
            MessageKind::Malformed => {
                return Err(SimError::MalformedMessage);
            },
            _ => {},
        }
        if packet.channel_id >= self.tree.channel_num {
            return Err(SimError::BadChannel);
        }
        match kind {
            MessageKind::Rec => self.on_rec(packet),
            MessageKind::Recr => self.on_recr(packet),
            MessageKind::Tf => self.on_tf(packet),
            MessageKind::Fl => self.on_fl(packet),
            MessageKind::Reconnect(init) => self.on_reconnect(packet, init),
            MessageKind::Offer(root) => self.on_offer(packet, root),
            MessageKind::Pset => self.on_pset(packet),
            _ => self.on_rset(packet),
        }
    }

    /// What a coordinator does with a packet of the join protocol.
    pub fn process_received_packet_coordinator(&mut self, packet: &RoutingPacket, pick: u32) -> (out:
        Result<Vec<RoutingPacket>, SimError>)
        requires
            old(self)@.wf(),
            old(self)@.tree.node_type is Coordinator,
            !is_rec_kind(message_kind(packet@.message)),
        ensures
            (final(self)@, result_view(out)) == old(self)@.join_step(packet@, pick),
            final(self)@.wf(),
            final(self)@.tree.received == old(self)@.tree.received,
    {
        let out = self.tree.process_received_packet_coordinator(packet, pick)?;
        let jreq = matches!(classify(&packet.message), MessageKind::Jreq);
        if jreq && packet.dest_id == self.tree.id && packet.dest_id != BROADCAST_ID
            && packet.channel_id as u32 + 1 == self.tree.id && packet.source_id == packet.prev_id {
            self.children_ids.insert(packet.channel_id, packet.source_id);
        }
        Ok(out)
    }

    /// What a router does with a packet of the join protocol.
    pub fn process_received_packet_router(&mut self, packet: &RoutingPacket, pick: u32) -> (out:
        Result<Vec<RoutingPacket>, SimError>)
        requires
            old(self)@.wf(),
            old(self)@.tree.node_type is Router,
            !is_rec_kind(message_kind(packet@.message)),
        ensures
            (final(self)@, result_view(out)) == old(self)@.join_step(packet@, pick),
            final(self)@.wf(),
            final(self)@.tree.received == old(self)@.tree.received,
    {
        let out = self.tree.process_received_packet_router(packet, pick)?;
        let jreq = matches!(classify(&packet.message), MessageKind::Jreq);
        if jreq && packet.dest_id != self.tree.id && packet.dest_id != BROADCAST_ID {
            self.children_ids.insert(packet.channel_id, packet.prev_id);
        }
        Ok(out)
    }

    /// Works off one packet that came in; `pick` decides the choice that the
    /// packet may ask for.
    pub fn process_received_packet(&mut self, packet: &RoutingPacket, pick: u32) -> (out: Result<
        Vec<RoutingPacket>,
        SimError,
    >)
        requires
            old(self)@.wf(),
        ensures
            (final(self)@, result_view(out)) == old(self)@.process(packet@, pick),
            final(self)@.wf(),
            final(self)@.tree.received == old(self)@.tree.received,
    {
        if packet.next_id != self.tree.id && packet.next_id != BROADCAST_ID {
            return Ok(no_packets());
        }
        let (is_rec_packet, res) = self.dynamic_rec(packet)?;
        if is_rec_packet {
            return Ok(res);
        }
        if self.tree.node_type.is_coordinator() {
            self.process_received_packet_coordinator(packet, pick)
        } else if self.tree.node_type.is_router() {
            self.process_received_packet_router(packet, pick)
        } else {
            Err(SimError::UnknownNodeType)
        }
    }
}

/// The routing ids of the neighbours that are gone.
pub open spec fn lost_of(option: Option<&UpdateOption>) -> Seq<u32> {
    match option {
        Some(o) => o.vids@,
        None => Seq::empty(),
    }
}

impl DynamicFunction {
    fn queue(&mut self, q: RoutingPacket)
        ensures
            final(self)@ == old(self)@.with_tree(
                TreeView { send: old(self)@.tree.send.push(q@), ..old(self)@.tree },
            ),
    {
        self.tree.send_packet_buffer.push(q);
        assert(self@.tree.send =~= old(self)@.tree.send.push(q@));
    }

    fn untouched(&self) -> (b: bool)
        ensures
            b == self@.untouched(),
    {
        let mut i: usize = 0;
        while i < self.rec_info.len()
            invariant
                i <= self.rec_info@.len(),
                forall|c: int| 0 <= c < i ==> self@.rec_info[c] is None,
            decreases self.rec_info@.len() - i,
        {
            if self.rec_info[i].is_some() {
                assert(self@.rec_info[i as int] is Some);
                return false;
            }
            assert(self@.rec_info[i as int] is None);
            i = i + 1;
        }
        true
    }

    fn probe_channel(&mut self, c: u8, probe: bool)
        requires
            old(self)@.wf(),
            c < old(self)@.tree.channel_num,
        ensures
            final(self)@ == old(self)@.probe_channel(c as int, probe),
            final(self)@.wf(),
    {
        let mut info = match self.info_of(c) {
            None => {
                return ;
            },
            Some(info) => info,
        };
        if info.rec_cnt >= MAX_REC_CNT {
            info.rec_cnt = 0;
            let init_node_id = info.init_node_id;
            if info.children.len() == 0 {
                info.end();
                let q = self.tree.gen_packet(
                    self.tree.id,
                    init_node_id,
                    init_node_id,
                    c,
                    String::from_str("fl"),
                );
                self.queue(q);
                self.set_info(c, info);
            } else {
                let next_id = info.children.remove(0);
                info.end();
                let q = self.tree.gen_packet(
                    self.tree.id,
                    next_id,
                    next_id,
                    c,
                    String::from_str("tf"),
                );
                self.queue(q);
                self.set_info(c, info);
            }
        } else if probe && info.is_rec {
            info.rec_cnt = info.rec_cnt + 1;
            let q = self.tree.gen_packet(
                self.tree.id,
                BROADCAST_ID,
                BROADCAST_ID,
                c,
                reconnect_message(info.init_node_id),
            );
            self.queue(q);
            self.set_info(c, info);
        }
    }

    fn lose_parent(&mut self, c: u8)
        requires
            old(self)@.wf(),
            c < old(self)@.tree.channel_num,
        ensures
            final(self)@ == old(self)@.lose_parent(c as int),
            final(self)@.wf(),
    {
        let id = self.tree.id;
        self.tree.parent_ids[c as usize] = 0;
        self.tree.network_joined[c as usize] = false;
        let kids = self.kids_of(c);
        self.set_info(c, RecInfo::new(c, &kids, id, None));
        self.root_ids[c as usize] = id;
        proof {
            lemma_fan_out(self@.tree, id, kids@, c, "rec"@);
        }
        let out = fan_out_packets(&mut self.tree, id, &kids, c, "rec");
        append_packets(&mut self.tree.send_packet_buffer, out);
    }

    fn lose_neighbor(&mut self, gone: u32)
        requires
            old(self)@.wf(),
        ensures
            final(self)@ == old(self)@.lose_neighbor(gone),
            final(self)@.wf(),
    {
        let mut index: u8 = 0;
        while index < self.tree.channel_num
            invariant
                self@.wf(),
                self@.tree.channel_num == old(self)@.tree.channel_num,
                index <= self@.tree.channel_num,
                self@ == old(self)@.lose_parents(gone, index as int),
            decreases self.tree.channel_num - index,
        {
            if self.tree.parent_ids[index as usize] == gone {
                self.lose_parent(index);
            }
            index = index + 1;
        }
        self.children_ids.forget(gone);
    }

    /// Carries the reconfigurations under way on, with `probes` to say on
    /// which channels the node asks again, and starts a new one on each
    /// channel whose parent is among the neighbours that are gone.
    pub fn dynamic_rec_in_update(&mut self, probes: &Vec<bool>, option: Option<&UpdateOption>)
        requires
            old(self)@.wf(),
        ensures
            final(self)@ == old(self)@.probe_channels(
                probes@,
                old(self)@.tree.channel_num as int,
            ).lose_neighbors(lost_of(option)),
            final(self)@.wf(),
    {
        let mut c: u8 = 0;
        while c < self.tree.channel_num
            invariant
                self@.wf(),
                self@.tree.channel_num == old(self)@.tree.channel_num,
                c <= self@.tree.channel_num,
                self@ == old(self)@.probe_channels(probes@, c as int),
            decreases self.tree.channel_num - c,
        {
            let probe = (c as usize) < probes.len() && probes[c as usize];
            self.probe_channel(c, probe);
            c = c + 1;
        }
        if let Some(option) = option {
            let ghost start = self@;
            let mut i: usize = 0;
            while i < option.vids.len()
                invariant
                    self@.wf(),
                    i <= option.vids@.len(),
                    self@ == start.lose_neighbors(option.vids@.subrange(0, i as int)),
                decreases option.vids@.len() - i,
            {
                proof {
                    let next = option.vids@.subrange(0, i + 1);
                    assert(next.drop_last() =~= option.vids@.subrange(0, i as int));
                }
                self.lose_neighbor(option.vids[i]);
                i = i + 1;
            }
            assert(option.vids@.subrange(0, option.vids@.len() as int) =~= option.vids@);
        }
    }

    /// One cycle of the core, with the neighbours that are gone.
    pub fn update(&mut self, option: Option<&UpdateOption>) -> (r: Result<(), SimError>)
        requires
            old(self)@.wf(),
        ensures
            final(self)@.wf(),
            exists|emit: bool, pick: u32, probes: Seq<bool>, picks: Seq<u32>|
                (final(self)@, error_of(r)) == old(self)@.update(
                    emit,
                    pick,
                    probes,
                    lost_of(option),
                    picks,
                ),
    {
        let emit = random_ratio(1, 10);
        let pick = random_u32();
        let probes = random_flags(self.tree.channel_num);
        let picks = random_picks(self.tree.received_packet_buffer.len());
        self.update_with(emit, pick, &probes, option, &picks)
    }

    /// One cycle of the core, with the numbers that decide its choices.
    pub fn update_with(
        &mut self,
        emit: bool,
        pick: u32,
        probes: &Vec<bool>,
        option: Option<&UpdateOption>,
        picks: &Vec<u32>,
    ) -> (r: Result<(), SimError>)
        requires
            old(self)@.wf(),
        ensures
            final(self)@.wf(),
            (final(self)@, error_of(r)) == old(self)@.update(
                emit,
                pick,
                probes@,
                lost_of(option),
                picks@,
            ),
    {
        let ask = emit && self.untouched();
        self.tree.ask_for_parent(ask, pick);
        self.dynamic_rec_in_update(probes, option);
        let ghost start = self@;
        let total: usize = self.tree.received_packet_buffer.len();
        let mut i: usize = 0;
        while self.tree.received_packet_buffer.len() > 0
            invariant
                self@.wf(),
                i + self.tree.received_packet_buffer@.len() == total,
                (start.drain(picks@, 0)) == old(self)@.update(
                    emit,
                    pick,
                    probes@,
                    lost_of(option),
                    picks@,
                ),
                start.drain(picks@, 0) == self@.drain(picks@, i as int),
            decreases self.tree.received_packet_buffer@.len(),
        {
            let ghost before = self@;
            let packet = self.tree.received_packet_buffer.remove(0);
            assert(self.tree.received_packet_buffer.deep_view() =~= before.tree.received.subrange(
                1,
                before.tree.received.len() as int,
            ));
            let pick_i = if i < picks.len() {
                picks[i]
            } else {
                0
            };
            let ghost rest = self@.tree.received;
            assert(self@ == before.with_tree(TreeView { received: rest, ..before.tree }));
            assert(pick_i == TreeView::pick_at(picks@, i as int));
            match self.process_received_packet(&packet, pick_i) {
                Ok(reply) => {
                    append_packets(&mut self.tree.send_packet_buffer, reply);
                },
                Err(e) => {
                    assert(self@ == self@.with_tree(TreeView { received: rest, ..self@.tree }));
                    assert(before.drain(picks@, i as int) == (self@, Some(e)));
                    return Err(e);
                },
            }
            i = i + 1;
        }
        Ok(())
    }
}

/// Working off a packet never makes the root of the node's tree on a
/// channel larger, unless the packet freezes the subtree anew or announces
/// a root.
pub proof fn lemma_root_never_grows(s: DynamicView, p: RoutingPacketView, pick: u32)
    requires
        s.wf(),
        !(message_kind(p.message) is Rec),
        !(message_kind(p.message) is Rset),
    ensures
        s.process(p, pick).0.root_ids.len() == s.root_ids.len(),
        forall|c: int|
            0 <= c < s.root_ids.len() ==> (#[trigger] s.process(p, pick).0.root_ids[c])
                <= s.root_ids[c],
{
}

/// A node takes a new root only from an offer, and only a smaller one.
pub proof fn lemma_offer_lowers_root(s: DynamicView, p: RoutingPacketView, root: u32)
    requires
        s.wf(),
        p.channel_id < s.tree.channel_num,
    ensures
        s.on_offer(p, root).1 is Err <==> s.rec_info[p.channel_id as int] is Some && root
            > s.root_ids[p.channel_id as int],
        s.on_offer(p, root).0.root_ids != s.root_ids ==> root < s.root_ids[p.channel_id as int]
            && s.on_offer(p, root).0.root_ids == s.root_ids.update(p.channel_id as int, root),
{
    let t = s.on_offer(p, root).0;
    if s.rec_info[p.channel_id as int] is Some && root == s.root_ids[p.channel_id as int] {
        assert(t.root_ids == s.root_ids);
    }
    if s.rec_info[p.channel_id as int] is Some && root < s.root_ids[p.channel_id as int] {
        assert(t.root_ids =~= s.root_ids.update(p.channel_id as int, root));
    }
}

/// The reconfigurations under way leave the roots as they are.
pub proof fn lemma_probe_keeps_roots(s: DynamicView, probes: Seq<bool>, n: int)
    ensures
        s.probe_channels(probes, n).root_ids == s.root_ids,
    decreases n,
{
    if n > 0 {
        lemma_probe_keeps_roots(s, probes, n - 1);
    }
}

/// Working off a packet keeps a parent on every channel that the node has
/// joined, unless the packet lets the node into a channel on which it has
/// none, or offers a parent without id.
pub proof fn lemma_joined_have_parents(s: DynamicView, p: RoutingPacketView, pick: u32)
    requires
        s.wf(),
        s.tree.joined_have_parents(),
        !s.breaks_parents(p),
    ensures
        s.process(p, pick).0.tree.joined_have_parents(),
        s.process(p, pick).0.wf(),
        s.process(p, pick).0.tree.received == s.tree.received,
{
    let t = s.process(p, pick).0.tree;
    if p.channel_id < s.tree.channel_num {
        let kids = s.children[p.channel_id as int];
        lemma_fan_out(s.tree, p.source_id, kids, p.channel_id, "rec"@);
        lemma_fan_out(s.tree, p.source_id, kids, p.channel_id, "rset"@);
        if let MessageKind::Offer(root) = message_kind(p.message) {
            let t0 = TreeView {
                parent_ids: s.tree.parent_ids.update(p.channel_id as int, p.source_id),
                ..s.tree
            };
            let t1 = t0.gen(s.tree.id, p.source_id, p.source_id, p.channel_id, "pset"@).0;
            lemma_fan_out(t0, root, kids, p.channel_id, "rset"@);
            lemma_fan_out(t1, root, kids, p.channel_id, "rset"@);
        }
    }
    assert(t.joined.len() == s.tree.joined.len());
    assert(t.parent_ids.len() == s.tree.parent_ids.len());
    assert forall|c: int| 0 <= c < t.joined.len() && t.joined[c] implies t.parent_ids[c] != 0 by {
        assert(s.tree.joined[c] ==> s.tree.parent_ids[c] != 0);
    }
}

/// The reconfigurations under way leave parents and joined channels as they
/// are.
pub proof fn lemma_probe_keeps_parents(s: DynamicView, probes: Seq<bool>, n: int)
    requires
        s.wf(),
        0 <= n <= s.tree.channel_num,
    ensures
        s.probe_channels(probes, n).wf(),
        s.probe_channels(probes, n).tree.joined == s.tree.joined,
        s.probe_channels(probes, n).tree.parent_ids == s.tree.parent_ids,
        s.probe_channels(probes, n).tree.received == s.tree.received,
        s.probe_channels(probes, n).tree.channel_num == s.tree.channel_num,
    decreases n,
{
    if n > 0 {
        lemma_probe_keeps_parents(s, probes, n - 1);
    }
}

/// The loss of a neighbour keeps a parent on every channel that the node
/// has joined: a channel that loses its parent is not joined any more.
pub proof fn lemma_loss_keeps_parents(s: DynamicView, gone: u32, n: int)
    requires
        s.wf(),
        s.tree.joined_have_parents(),
        0 <= n <= s.tree.channel_num,
    ensures
        s.lose_parents(gone, n).wf(),
        s.lose_parents(gone, n).tree.joined_have_parents(),
        s.lose_parents(gone, n).tree.received == s.tree.received,
        s.lose_parents(gone, n).tree.channel_num == s.tree.channel_num,
        forall|c: int|
            n <= c < s.tree.channel_num ==> #[trigger] s.lose_parents(gone, n).tree.parent_ids[c]
                == s.tree.parent_ids[c],
    decreases n,
{
    if n > 0 {
        lemma_loss_keeps_parents(s, gone, n - 1);
        let t = s.lose_parents(gone, n - 1);
        if t.tree.parent_ids[n - 1] == gone {
            let t0 = TreeView {
                parent_ids: t.tree.parent_ids.update(n - 1, 0),
                joined: t.tree.joined.update(n - 1, false),
                ..t.tree
            };
            lemma_fan_out(t0, t.tree.id, t.children[n - 1], (n - 1) as u8, "rec"@);
            let r = t.lose_parent(n - 1);
            assert forall|c: int| 0 <= c < r.tree.joined.len() && r.tree.joined[c] implies r.tree.parent_ids[c]
                != 0 by {
                assert(t.tree.joined[c] ==> t.tree.parent_ids[c] != 0);
            }
        }
    }
}

/// The loss of neighbours keeps a parent on every channel that the node
/// has joined.
pub proof fn lemma_losses_keep_parents(s: DynamicView, lost: Seq<u32>)
    requires
        s.wf(),
        s.tree.joined_have_parents(),
    ensures
        s.lose_neighbors(lost).wf(),
        s.lose_neighbors(lost).tree.joined_have_parents(),
        s.lose_neighbors(lost).tree.received == s.tree.received,
    decreases lost.len(),
{
    if lost.len() > 0 {
        lemma_losses_keep_parents(s, lost.drop_last());
        let t = s.lose_neighbors(lost.drop_last());
        lemma_loss_keeps_parents(t, lost.last(), t.tree.channel_num as int);
    }
}

/// Working off the packets that came in keeps a parent on every channel
/// that the node has joined, unless one of them can leave the node without.
pub proof fn lemma_drain_keeps_parents(s: DynamicView, picks: Seq<u32>, i: int)
    requires
        s.wf(),
        s.tree.joined_have_parents(),
        s.drain_safe(picks, i),
    ensures
        s.drain(picks, i).0.tree.joined_have_parents(),
        s.drain(picks, i).0.wf(),
    decreases s.tree.received.len(),
{
    if s.tree.received.len() > 0 {
        let rest = s.tree.received.subrange(1, s.tree.received.len() as int);
        let s0 = s.with_tree(TreeView { received: rest, ..s.tree });
        let pick = TreeView::pick_at(picks, i);
        let (t, r) = s0.process(s.tree.received[0], pick);
        lemma_joined_have_parents(s0, s.tree.received[0], pick);
        match r {
            Err(e) => {},
            Ok(out) => {
                lemma_drain_keeps_parents(
                    t.with_tree(TreeView { received: rest, send: t.tree.send + out, ..t.tree }),
                    picks,
                    i + 1,
                );
            },
        }
    }
}

/// A cycle of the core keeps a parent on every channel that the node has
/// joined, also where the node loses neighbours, unless one of the packets
/// that came in can leave the node on a joined channel without parent.
pub proof fn lemma_cycle_keeps_parents(
    s: DynamicView,
    emit: bool,
    pick: u32,
    probes: Seq<bool>,
    lost: Seq<u32>,
    picks: Seq<u32>,
)
    requires
        s.wf(),
        s.tree.joined_have_parents(),
        s.before_drain(emit, pick, probes, lost).drain_safe(picks, 0),
    ensures
        s.update(emit, pick, probes, lost, picks).0.tree.joined_have_parents(),
        s.update(emit, pick, probes, lost, picks).0.wf(),
{
    let s0 = s.with_tree(s.tree.ask_for_parent(emit && s.untouched(), pick));
    assert(s0.wf());
    assert(s0.tree.joined_have_parents());
    let s1 = s0.probe_channels(probes, s.tree.channel_num as int);
    lemma_probe_keeps_parents(s0, probes, s.tree.channel_num as int);
    assert(s1.tree.joined_have_parents());
    lemma_losses_keep_parents(s1, lost);
    lemma_drain_keeps_parents(s1.lose_neighbors(lost), picks, 0);
}

impl DynamicView {
    /// What the loss of the neighbour `gone` comes to on channel `c`, but
    /// for the children, told of the core before (`self`) and after it
    /// (`after`). On a channel whose parent was the neighbour, the node has
    /// no parent and has not joined any more, is its own root, and has
    /// begun a reconfiguration with its children of before the loss to ask;
    /// any other channel is as it was.
    pub open spec fn parent_lost_on_channel(self, after: DynamicView, gone: u32, c: int) -> bool {
        if self.tree.parent_ids[c] == gone {
            &&& after.tree.parent_ids[c] == 0
            &&& !after.tree.joined[c]
            &&& after.root_ids[c] == self.tree.id
            &&& after.rec_info[c] == Some(
                RecInfoView::fresh(c as u8, self.children[c], self.tree.id, None),
            )
        } else {
            &&& after.tree.parent_ids[c] == self.tree.parent_ids[c]
            &&& after.tree.joined[c] == self.tree.joined[c]
            &&& after.root_ids[c] == self.root_ids[c]
            &&& after.rec_info[c] == self.rec_info[c]
        }
    }

    /// What the loss of the neighbour `gone` comes to on channel `c`: what
    /// `parent_lost_on_channel` says, and the neighbour is no child any
    /// more.
    pub open spec fn lost_on_channel(self, after: DynamicView, gone: u32, c: int) -> bool {
        self.parent_lost_on_channel(after, gone, c) && after.children[c] == without(
            self.children[c],
            gone,
        )
    }
}

proof fn lemma_lose_parents_by_channel(s: DynamicView, gone: u32, n: int)
    requires
        s.wf(),
        0 <= n <= s.tree.channel_num,
    ensures
        s.lose_parents(gone, n).wf(),
        s.lose_parents(gone, n).tree.id == s.tree.id,
        s.lose_parents(gone, n).children == s.children,
        forall|c: int|
            0 <= c < n ==> #[trigger] s.parent_lost_on_channel(s.lose_parents(gone, n), gone, c),
        forall|c: int|
            n <= c < s.tree.channel_num ==> (#[trigger] s.lose_parents(
                gone,
                n,
            ).tree.parent_ids[c]) == s.tree.parent_ids[c] && s.lose_parents(gone, n).tree.joined[c]
                == s.tree.joined[c] && s.lose_parents(gone, n).root_ids[c] == s.root_ids[c]
                && s.lose_parents(gone, n).rec_info[c] == s.rec_info[c],
    decreases n,
{
    if n > 0 {
        lemma_lose_parents_by_channel(s, gone, n - 1);
        let t = s.lose_parents(gone, n - 1);
        let r = s.lose_parents(gone, n);
        if t.tree.parent_ids[n - 1] == gone {
            let t0 = TreeView {
                parent_ids: t.tree.parent_ids.update(n - 1, 0),
                joined: t.tree.joined.update(n - 1, false),
                ..t.tree
            };
            lemma_fan_out(t0, t.tree.id, t.children[n - 1], (n - 1) as u8, "rec"@);
        }
        assert forall|c: int| 0 <= c < n implies #[trigger] s.parent_lost_on_channel(
            r,
            gone,
            c,
        ) by {
            if c < n - 1 {
                assert(s.parent_lost_on_channel(t, gone, c));
            } else {
                assert(t.tree.parent_ids[c] == s.tree.parent_ids[c]);
            }
        }
        assert forall|c: int| n <= c < s.tree.channel_num implies (#[trigger] r.tree.parent_ids[c])
            == s.tree.parent_ids[c] && r.tree.joined[c] == s.tree.joined[c] && r.root_ids[c]
            == s.root_ids[c] && r.rec_info[c] == s.rec_info[c] by {
            assert(t.tree.parent_ids[c] == s.tree.parent_ids[c]);
        }
    }
}

/// The loss of a neighbour, channel by channel: see `lost_on_channel`.
pub proof fn lemma_loss_of_neighbor(s: DynamicView, gone: u32)
    requires
        s.wf(),
    ensures
        s.lose_neighbor(gone).wf(),
        forall|c: int|
            0 <= c < s.tree.channel_num ==> #[trigger] s.lost_on_channel(
                s.lose_neighbor(gone),
                gone,
                c,
            ),
{
    lemma_lose_parents_by_channel(s, gone, s.tree.channel_num as int);
    let r = s.lose_parents(gone, s.tree.channel_num as int);
    assert forall|c: int| 0 <= c < s.tree.channel_num implies #[trigger] s.lost_on_channel(
        s.lose_neighbor(gone),
        gone,
        c,
    ) by {
        assert(s.parent_lost_on_channel(r, gone, c));
    }
}

} // verus!
