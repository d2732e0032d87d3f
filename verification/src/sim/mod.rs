pub mod node;
pub mod node_type;
pub mod nodes;
pub mod rec;

use vstd::prelude::*;
use vstd::string::*;
use std::collections::HashMap;
use crate::error::SimError;
use crate::file::{InputFile, PacketInfo};
use crate::hardware::switching::Switching;
use crate::log::{CollisionInfoView, Log};
use crate::network::core_functions::{
    can_make_core, core_channels, core_counter_after, core_kind,
};
use crate::network::core_functions::multi_tree::error_of;
use crate::network::core_functions::packets::{InjectionPacket, InjectionPacketView};
use crate::network::vid::{register_broadcast, VidTable};
use crate::network::Packets;
use crate::sim::node::{Draws, Node, NodeView};
use crate::sim::node_type::NodeType;
use crate::sim::nodes::{drawn_well, links_at, Nodes, NodesView};
use crate::sim::rec::RecTable;

verus! {

/// The messages that a node sends, each under its cycle: those of the first
/// `n` messages of the configuration that name the node as source. Of two
/// messages in one cycle the later one stays.
pub open spec fn injections_of(packets: Seq<PacketInfo>, n: int, node_id: Seq<char>) -> Map<
    u32,
    InjectionPacketView,
>
    decreases n,
{
    if n <= 0 {
        Map::empty()
    } else {
        let rest = injections_of(packets, n - 1, node_id);
        let p = packets[n - 1];
        if p.src_id@ == node_id {
            rest.insert(
                p.cycle_num,
                InjectionPacketView { source_id: p.src_id@, dest_id: p.dest_id@, message: p.msg@ },
            )
        } else {
            rest
        }
    }
}

/// The routing kind of a configuration: the default kind where it names
/// none.
pub open spec fn routing_of(input: InputFile) -> Seq<char> {
    match input.routing {
        Some(r) => r@,
        None => "default"@,
    }
}

/// The cycles whose packets a run counts: all of them where the
/// configuration names none.
pub open spec fn log_range_of(input: InputFile) -> Seq<u32> {
    match input.log_range {
        Some(r) => r@,
        None => seq![0u32, input.total_cycles],
    }
}

/// The `i`-th node of a configuration as it starts, with the routing id
/// `vid`.
pub open spec fn fresh_node(input: InputFile, i: int, vid: u32) -> NodeView {
    let info = input.nodes@[i];
    NodeView::fresh(
        info.node_id@,
        NodeType::spec_new(info.node_type@),
        core_kind(routing_of(input)).unwrap(),
        input.channel_num,
        Switching::spec_parse(input.switching@).unwrap(),
        injections_of(input.packets@, input.packets@.len() as int, info.node_id@),
        vid,
    )
}

/// The next coordinator id when the `i`-th node of a configuration is made,
/// if it is `cnt` when the first is.
pub open spec fn counter_at(input: InputFile, cnt: u32, i: int) -> u32
    decreases i,
{
    if i <= 0 {
        cnt
    } else {
        core_counter_after(
            routing_of(input),
            NodeType::spec_new(input.nodes@[i - 1].node_type@),
            input.channel_num,
            counter_at(input, cnt, i - 1),
        )
    }
}

/// Whether the `i`-th node of a configuration can be made when its turn
/// comes: the configuration names a kind of routing core, and a coordinator
/// finds the next coordinator id among the ids of the core's channels.
pub open spec fn node_can_be_made(input: InputFile, cnt: u32, i: int) -> bool {
    can_make_core(
        routing_of(input),
        NodeType::spec_new(input.nodes@[i].node_type@),
        input.channel_num,
        counter_at(input, cnt, i),
    )
}

/// The number of nodes that are made, or tried, before the build ends: all
/// nodes, or those up to the first that cannot be made.
pub open spec fn made_nodes(input: InputFile, cnt: u32) -> int {
    if forall|i: int| 0 <= i < input.nodes@.len() ==> #[trigger] node_can_be_made(input, cnt, i) {
        input.nodes@.len() as int
    } else {
        let first = choose|i: int|
            0 <= i < input.nodes@.len() && !#[trigger] node_can_be_made(input, cnt, i) && forall|
                k: int,
            |
                0 <= k < i ==> #[trigger] node_can_be_made(input, cnt, k);
        first + 1
    }
}

/// Why a configuration cannot be built on, if it cannot: it has no channel,
/// it names no switching mode, it has nodes and names no kind of routing
/// core, or one of its nodes cannot be made. `cnt` is the next coordinator
/// id when the build starts.
pub open spec fn build_error(input: InputFile, cnt: u32) -> Option<SimError> {
    if input.channel_num == 0 {
        Some(SimError::BadChannel)
    } else if Switching::spec_parse(input.switching@) is None {
        Some(SimError::InvalidSwitching)
    } else if input.nodes@.len() > 0 && core_kind(routing_of(input)) is None {
        Some(SimError::UnknownRouting)
    } else if exists|i: int|
        0 <= i < input.nodes@.len() && !#[trigger] node_can_be_made(input, cnt, i) {
        Some(SimError::TooManyCoordinators)
    } else {
        None
    }
}

/// With the first `i` nodes made and the next one not, or with all nodes
/// made, `i` or `i + 1` nodes were made or tried.
proof fn lemma_made_nodes(input: InputFile, cnt: u32, i: int)
    requires
        0 <= i <= input.nodes@.len(),
        forall|k: int| 0 <= k < i ==> #[trigger] node_can_be_made(input, cnt, k),
        i < input.nodes@.len() ==> !node_can_be_made(input, cnt, i),
    ensures
        made_nodes(input, cnt) == (if i < input.nodes@.len() {
            i + 1
        } else {
            i
        }),
{
    if i < input.nodes@.len() {
        let first = choose|j: int|
            0 <= j < input.nodes@.len() && !#[trigger] node_can_be_made(input, cnt, j) && forall|
                k: int,
            |
                0 <= k < j ==> #[trigger] node_can_be_made(input, cnt, k);
        assert(0 <= i < input.nodes@.len() && !node_can_be_made(input, cnt, i));
        if first < i {
            assert(node_can_be_made(input, cnt, first));
        }
        if i < first {
            assert(node_can_be_made(input, cnt, i));
        }
    }
}

/// While the next coordinator id lies among the ids of the core's channels,
/// it stays there, and every node can be made.
pub proof fn lemma_counter_stays_in_range(input: InputFile, cnt: u32, i: int)
    requires
        input.channel_num > 0,
        core_kind(routing_of(input)) matches Some(kind) && 1 <= cnt <= core_channels(
            kind,
            input.channel_num,
        ),
        0 <= i,
    ensures
        1 <= counter_at(input, cnt, i) <= core_channels(
            core_kind(routing_of(input)).unwrap(),
            input.channel_num,
        ),
        node_can_be_made(input, cnt, i),
    decreases i,
{
    if i > 0 {
        lemma_counter_stays_in_range(input, cnt, i - 1);
    }
}

/// A configuration with a channel, a switching mode and a kind of routing
/// core can be built on if the next coordinator id lies among the ids of
/// the core's channels.
pub proof fn lemma_build_succeeds(input: InputFile, cnt: u32)
    requires
        input.channel_num > 0,
        Switching::spec_parse(input.switching@) is Some,
        core_kind(routing_of(input)) matches Some(kind) && 1 <= cnt <= core_channels(
            kind,
            input.channel_num,
        ),
    ensures
        build_error(input, cnt) is None,
{
    assert forall|i: int| 0 <= i < input.nodes@.len() implies #[trigger] node_can_be_made(
        input,
        cnt,
        i,
    ) by {
        lemma_counter_stays_in_range(input, cnt, i);
    }
}

/// Makes a simulation from a configuration.
pub struct SimBuilder {
    pub input: InputFile,
}

/// A simulation: the system of nodes and the count of cycles.
#[derive(Debug)]
pub struct Sim {
    pub node_num: u32,
    pub total_cycles: u32,
    pub cur_cycles: u32,
    pub channel_num: u8,
    pub nodes: Nodes,
    pub log_range: Vec<u32>,
}

fn collect_injections(packets: &Vec<PacketInfo>, node_id: &String) -> (r: HashMap<
    u32,
    InjectionPacket,
>)
    ensures
        r@.map_values(|p: InjectionPacket| p@) == injections_of(
            packets@,
            packets@.len() as int,
            node_id@,
        ),
{
    let mut r: HashMap<u32, InjectionPacket> = HashMap::new();
    let mut i: usize = 0;
    assert(r@.map_values(|p: InjectionPacket| p@) =~= injections_of(packets@, 0, node_id@));
    while i < packets.len()
        invariant
            i <= packets@.len(),
            r@.map_values(|p: InjectionPacket| p@) == injections_of(
                packets@,
                i as int,
                node_id@,
            ),
        decreases packets@.len() - i,
    {
        let p = &packets[i];
        if p.src_id == *node_id {
            let ghost before = r@;
            let injection = InjectionPacket {
                source_id: p.src_id.clone(),
                dest_id: p.dest_id.clone(),
                message: p.msg.clone(),
            };
            r.insert(p.cycle_num, injection);
            assert(r@.map_values(|p: InjectionPacket| p@) =~= before.map_values(
                |p: InjectionPacket| p@,
            ).insert(p.cycle_num, injection@));
        }
        i = i + 1;
    }
    r
}

impl SimBuilder {
    pub fn new(input: InputFile) -> (r: Self)
        ensures
            r.input == input,
    {
        Self { input }
    }

    /// Builds the simulation: makes the nodes in the order of the
    /// configuration, each with the messages that it sends, enters them in
    /// the id table, and enters the name that addresses every node.
    pub fn build(self, table: &mut VidTable) -> (r: Result<Sim, SimError>)
        requires
            old(table).wf(),
            self.input.neighbors.wf(),
            self.input.rec_table matches Some(t) ==> forall|c: u32| #[trigger]
                t@.contains_key(c) ==> t@[c].new_neighbors.wf(),
        ensures
            final(table).wf(),
            error_of(r) == build_error(self.input, old(table).coordinator_cnt),
            final(table).coordinator_cnt == (if self.input.channel_num == 0 || Switching::spec_parse(
                self.input.switching@,
            ) is None {
                old(table).coordinator_cnt
            } else {
                counter_at(
                    self.input,
                    old(table).coordinator_cnt,
                    made_nodes(self.input, old(table).coordinator_cnt),
                )
            }),
            r matches Ok(sim) ==> {
                    &&& sim.wf()
                    &&& sim.node_num == self.input.node_num
                    &&& sim.total_cycles == self.input.total_cycles
                    &&& sim.channel_num == self.input.channel_num
                    &&& sim.cur_cycles == 0
                    &&& sim.log_range@ == log_range_of(self.input)
                    &&& sim.nodes.neighbors == self.input.neighbors
                    &&& sim.nodes@.inboxes == Map::<
                        Seq<char>,
                        Seq<crate::network::flit::FlitView>,
                    >::empty()
                    &&& (match self.input.rec_table {
                        Some(t) => sim.nodes.rec_table.table == t,
                        None => sim.nodes.rec_table.table@ == Map::<
                            u32,
                            crate::sim::rec::Update,
                        >::empty(),
                    })
                    &&& sim.nodes.nodes@.len() == self.input.nodes@.len()
                    &&& forall|i: int|
                        0 <= i < self.input.nodes@.len() ==> (#[trigger] sim.nodes.nodes@[i])@
                            == fresh_node(self.input, i, sim.nodes.nodes@[i]@.network.core.tree().id)
                    &&& final(table).vids().contains_key("broadcast"@)
                    &&& final(table).vids()["broadcast"@] == u32::MAX
                    &&& final(table).pids().contains_key(u32::MAX)
                    &&& final(table).pids()[u32::MAX] == "broadcast"@
                },
    {
        let input = self.input;
        if input.channel_num == 0 {
            return Err(SimError::BadChannel);
        }
        let switching = match Switching::parse(input.switching.as_str()) {
            Ok(s) => s,
            Err(_) => {
                return Err(SimError::InvalidSwitching);
            },
        };
        let routing = match &input.routing {
            Some(r) => r.clone(),
            None => String::from_str("default"),
        };
        let mut nodes: Vec<Node> = Vec::new();
        let mut i: usize = 0;
        while i < input.nodes.len()
            invariant
                table.wf(),
                input == self.input,
                input.channel_num > 0,
                routing@ == routing_of(input),
                Switching::spec_parse(input.switching@) == Some(switching),
                i <= input.nodes@.len(),
                nodes@.len() == i,
                i > 0 ==> core_kind(routing@) is Some,
                table.coordinator_cnt == counter_at(input, old(table).coordinator_cnt, i as int),
                forall|k: int|
                    0 <= k < i ==> #[trigger] node_can_be_made(
                        input,
                        old(table).coordinator_cnt,
                        k,
                    ),
                forall|k: int| 0 <= k < i ==> (#[trigger] nodes@[k]).wf(),
                forall|k: int|
                    0 <= k < i ==> (#[trigger] nodes@[k])@ == fresh_node(
                        input,
                        k,
                        nodes@[k]@.network.core.tree().id,
                    ),
            decreases input.nodes@.len() - i,
        {
            let info = &input.nodes[i];
            let packets = collect_injections(&input.packets, &info.node_id);
            let node_type = NodeType::new(info.node_type.as_str());
            let made = Node::new(
                info.node_id.as_str(),
                input.channel_num,
                &switching,
                routing.as_str(),
                &node_type,
                packets,
                table,
            );
            let node = match made {
                Ok(node) => node,
                Err(e) => {
                    proof {
                        assert(!node_can_be_made(input, old(table).coordinator_cnt, i as int));
                        lemma_made_nodes(input, old(table).coordinator_cnt, i as int);
                    }
                    return Err(e);
                },
            };
            nodes.push(node);
            i = i + 1;
        }
        proof {
            lemma_made_nodes(input, old(table).coordinator_cnt, input.nodes@.len() as int);
        }
        register_broadcast(table);
        let rec_table = RecTable {
            table: match input.rec_table {
                Some(t) => t,
                None => HashMap::new(),
            },
        };
        let log_range = match input.log_range {
            Some(r) => r,
            None => {
                let mut r: Vec<u32> = Vec::new();
                r.push(0);
                r.push(input.total_cycles);
                assert(r@ =~= seq![0u32, input.total_cycles]);
                r
            },
        };
        Ok(
            Sim {
                node_num: input.node_num,
                nodes: Nodes::new(nodes, input.neighbors, rec_table),
                total_cycles: input.total_cycles,
                channel_num: input.channel_num,
                cur_cycles: 0,
                log_range,
            },
        )
    }
}

/// The cycles `from`, `from + 1`, and so on of a system, `n` of them, up to
/// the first error; with the state of the system, the log and the number of
/// cycles that went through.
pub open spec fn run_cycles(
    s: NodesView,
    rec_table: RecTable,
    packets: Packets,
    collisions: Seq<CollisionInfoView>,
    from: u32,
    n: int,
    draws: Seq<Seq<Draws>>,
    vids: Map<Seq<char>, u32>,
    pids: Map<u32, Seq<char>>,
) -> (NodesView, Packets, Seq<CollisionInfoView>, Option<SimError>, int)
    decreases n,
{
    if n <= 0 {
        (s, packets, collisions, None, 0)
    } else {
        let (s1, log1, cs1, e1, done) = run_cycles(
            s,
            rec_table,
            packets,
            collisions,
            from,
            n - 1,
            draws,
            vids,
            pids,
        );
        if e1 is Some {
            (s1, log1, cs1, e1, done)
        } else {
            let cycle = (from + n - 1) as u32;
            let (s2, log2, cs2, e2) = step_cycle(
                s1,
                links_at(rec_table, cycle),
                log1,
                cs1,
                cycle,
                draws[n - 1],
                vids,
                pids,
            );
            (
                s2,
                log2,
                cs2,
                e2,
                if e2 is Some {
                    done
                } else {
                    done + 1
                },
            )
        }
    }
}

/// Whether in each cycle of a run the extra waits among the numbers drawn
/// are such as the links of the nodes, as they are when the cycle starts,
/// may draw.
pub open spec fn run_drawn_well(
    s: NodesView,
    rec_table: RecTable,
    packets: Packets,
    collisions: Seq<CollisionInfoView>,
    from: u32,
    draws: Seq<Seq<Draws>>,
    vids: Map<Seq<char>, u32>,
    pids: Map<u32, Seq<char>>,
) -> bool {
    forall|k: int|
        0 <= k < draws.len() ==> drawn_well(
            (#[trigger] run_cycles(s, rec_table, packets, collisions, from, k, draws, vids, pids)).0.nodes,
            draws[k],
            Seq::empty(),
        )
}

/// One cycle of the system.
#[verifier::opaque]
pub open spec fn step_cycle(
    s: NodesView,
    rec: Option<crate::sim::nodes::Links>,
    packets: Packets,
    collisions: Seq<CollisionInfoView>,
    cycle: u32,
    draws: Seq<Draws>,
    vids: Map<Seq<char>, u32>,
    pids: Map<u32, Seq<char>>,
) -> (NodesView, Packets, Seq<CollisionInfoView>, Option<SimError>) {
    s.run_cycle(rec, packets, collisions, cycle, draws, vids, pids)
}

proof fn lemma_run_cycles_prefix(
    s: NodesView,
    rec_table: RecTable,
    packets: Packets,
    collisions: Seq<CollisionInfoView>,
    from: u32,
    n: int,
    draws: Seq<Seq<Draws>>,
    more: Seq<Seq<Draws>>,
    vids: Map<Seq<char>, u32>,
    pids: Map<u32, Seq<char>>,
)
    requires
        n <= draws.len() <= more.len(),
        forall|i: int| 0 <= i < draws.len() ==> draws[i] == more[i],
    ensures
        run_cycles(s, rec_table, packets, collisions, from, n, draws, vids, pids) == run_cycles(
            s,
            rec_table,
            packets,
            collisions,
            from,
            n,
            more,
            vids,
            pids,
        ),
    decreases n,
{
    if n > 0 {
        lemma_run_cycles_prefix(
            s,
            rec_table,
            packets,
            collisions,
            from,
            n - 1,
            draws,
            more,
            vids,
            pids,
        );
    }
}

proof fn lemma_run_cycles_stops(
    s: NodesView,
    rec_table: RecTable,
    packets: Packets,
    collisions: Seq<CollisionInfoView>,
    from: u32,
    k: int,
    n: int,
    draws: Seq<Seq<Draws>>,
    vids: Map<Seq<char>, u32>,
    pids: Map<u32, Seq<char>>,
)
    requires
        0 <= k <= n,
        run_cycles(s, rec_table, packets, collisions, from, k, draws, vids, pids).3 is Some,
    ensures
        run_cycles(s, rec_table, packets, collisions, from, n, draws, vids, pids) == run_cycles(
            s,
            rec_table,
            packets,
            collisions,
            from,
            k,
            draws,
            vids,
            pids,
        ),
    decreases n - k,
{
    if k < n {
        lemma_run_cycles_stops(
            s,
            rec_table,
            packets,
            collisions,
            from,
            k,
            n - 1,
            draws,
            vids,
            pids,
        );
    }
}

impl Sim {
    pub open spec fn wf(&self) -> bool {
        self.nodes.wf()
    }

    /// The number of cycles that are left to run.
    pub open spec fn cycles_left(&self) -> int {
        if self.cur_cycles < self.total_cycles {
            self.total_cycles - self.cur_cycles
        } else {
            0
        }
    }

    /// Runs the cycles that are left, up to the first error.
    pub fn run(&mut self, table: &VidTable, log: &mut Log) -> (r: Result<(), SimError>)
        requires
            old(self).wf(),
            old(log).wf(),
            table.wf(),
        ensures
            final(self).wf(),
            final(log).wf(),
            final(self).node_num == old(self).node_num,
            final(self).total_cycles == old(self).total_cycles,
            final(self).channel_num == old(self).channel_num,
            final(self).log_range == old(self).log_range,
            final(self).nodes.rec_table == old(self).nodes.rec_table,
            r is Ok ==> final(self).cur_cycles == old(self).cur_cycles + old(self).cycles_left(),
            exists|draws: Seq<Seq<Draws>>|
                run_drawn_well(
                    old(self).nodes@,
                    old(self).nodes.rec_table,
                    old(log).packets(),
                    old(log).collisions(),
                    old(self).cur_cycles,
                    draws,
                    table.vids(),
                    table.pids(),
                ) && (
                    final(self).nodes@,
                    final(log).packets(),
                    final(log).collisions(),
                    error_of(r),
                    final(self).cur_cycles - old(self).cur_cycles,
                ) == run_cycles(
                    old(self).nodes@,
                    old(self).nodes.rec_table,
                    old(log).packets(),
                    old(log).collisions(),
                    old(self).cur_cycles,
                    old(self).cycles_left(),
                    draws,
                    table.vids(),
                    table.pids(),
                ),
    {
        let ghost mut draws: Seq<Seq<Draws>> = Seq::empty();
        let ghost left = self.cycles_left();
        while self.cur_cycles < self.total_cycles
            invariant
                self.wf(),
                log.wf(),
                table.wf(),
                self.node_num == old(self).node_num,
                self.total_cycles == old(self).total_cycles,
                self.channel_num == old(self).channel_num,
                self.log_range == old(self).log_range,
                self.nodes.rec_table == old(self).nodes.rec_table,
                left == old(self).cycles_left(),
                old(self).cur_cycles <= self.cur_cycles,
                self.cur_cycles - old(self).cur_cycles <= left,
                self.cur_cycles < self.total_cycles || self.cur_cycles - old(self).cur_cycles
                    == left,
                draws.len() == self.cur_cycles - old(self).cur_cycles,
                run_drawn_well(
                    old(self).nodes@,
                    old(self).nodes.rec_table,
                    old(log).packets(),
                    old(log).collisions(),
                    old(self).cur_cycles,
                    draws,
                    table.vids(),
                    table.pids(),
                ),
                (
                    self.nodes@,
                    log.packets(),
                    log.collisions(),
                    None::<SimError>,
                    self.cur_cycles - old(self).cur_cycles,
                ) == run_cycles(
                    old(self).nodes@,
                    old(self).nodes.rec_table,
                    old(log).packets(),
                    old(log).collisions(),
                    old(self).cur_cycles,
                    self.cur_cycles - old(self).cur_cycles,
                    draws,
                    table.vids(),
                    table.pids(),
                ),
            decreases self.total_cycles - self.cur_cycles,
        {
            let ghost before = self.nodes@;
            let ghost before_log = log.packets();
            let ghost before_collisions = log.collisions();
            let ghost done = self.cur_cycles - old(self).cur_cycles;
            let r = self.nodes.run_cycle(self.cur_cycles, table, log);
            proof {
                reveal(step_cycle);
                let d = choose|d: Seq<Draws>|
                    drawn_well(before.nodes, d, Seq::empty()) && (
                        self.nodes@,
                        log.packets(),
                        log.collisions(),
                        error_of(r),
                    ) == before.run_cycle(
                        links_at(old(self).nodes.rec_table, self.cur_cycles),
                        before_log,
                        before_collisions,
                        self.cur_cycles,
                        d,
                        table.vids(),
                        table.pids(),
                    );
                let all = draws.push(d);
                lemma_run_cycles_prefix(
                    old(self).nodes@,
                    old(self).nodes.rec_table,
                    old(log).packets(),
                    old(log).collisions(),
                    old(self).cur_cycles,
                    done,
                    draws,
                    all,
                    table.vids(),
                    table.pids(),
                );
                assert(step_cycle(
                    before,
                    links_at(old(self).nodes.rec_table, self.cur_cycles),
                    before_log,
                    before_collisions,
                    self.cur_cycles,
                    all[done],
                    table.vids(),
                    table.pids(),
                ) == (self.nodes@, log.packets(), log.collisions(), error_of(r)));
                assert forall|k: int| 0 <= k < all.len() implies drawn_well(
                    (#[trigger] run_cycles(
                        old(self).nodes@,
                        old(self).nodes.rec_table,
                        old(log).packets(),
                        old(log).collisions(),
                        old(self).cur_cycles,
                        k,
                        all,
                        table.vids(),
                        table.pids(),
                    )).0.nodes,
                    all[k],
                    Seq::empty(),
                ) by {
                    lemma_run_cycles_prefix(
                        old(self).nodes@,
                        old(self).nodes.rec_table,
                        old(log).packets(),
                        old(log).collisions(),
                        old(self).cur_cycles,
                        k,
                        draws,
                        all,
                        table.vids(),
                        table.pids(),
                    );
                    if k < done {
                        assert(drawn_well(
                            run_cycles(
                                old(self).nodes@,
                                old(self).nodes.rec_table,
                                old(log).packets(),
                                old(log).collisions(),
                                old(self).cur_cycles,
                                k,
                                draws,
                                table.vids(),
                                table.pids(),
                            ).0.nodes,
                            draws[k],
                            Seq::empty(),
                        ));
                    }
                }
                draws = all;
                assert(run_drawn_well(
                    old(self).nodes@,
                    old(self).nodes.rec_table,
                    old(log).packets(),
                    old(log).collisions(),
                    old(self).cur_cycles,
                    draws,
                    table.vids(),
                    table.pids(),
                ));
                if r is Err {
                    lemma_run_cycles_stops(
                        old(self).nodes@,
                        old(self).nodes.rec_table,
                        old(log).packets(),
                        old(log).collisions(),
                        old(self).cur_cycles,
                        done + 1,
                        left,
                        all,
                        table.vids(),
                        table.pids(),
                    );
                }
            }
            if let Err(e) = r {
                return Err(e);
            }
            self.cur_cycles = self.cur_cycles + 1;
        }
        Ok(())
    }
}

} // verus!
