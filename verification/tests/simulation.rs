use recsimu::error::SimError;
use recsimu::file::{InputFile, NodeInfo, PacketInfo};
use recsimu::hardware::state::State;
use recsimu::hardware::switching::Switching;
use recsimu::log::{collect_stats, get_all_log, Log};
use recsimu::network::core_functions::packets::InjectionPacket;
use recsimu::network::flit::{Flit, HeaderFlit};
use recsimu::network::option::UpdateOption;
use recsimu::network::vid::{add_to_vid_table, get_vid, VidTable};
use recsimu::sim::node::{Node, NodeDraws};
use recsimu::sim::node_type::NodeType;
use recsimu::sim::nodes::Nodes;
use recsimu::sim::rec::{RecTable, Update};
use recsimu::sim::SimBuilder;
use recsimu::str_map::StrMap;
use std::collections::HashMap;

fn links(pairs: &[(&str, &[&str])]) -> StrMap<Vec<String>> {
    let mut m = StrMap::new();
    for (k, v) in pairs {
        m.insert(k, v.iter().map(|s| s.to_string()).collect());
    }
    m
}

fn two_node_input() -> InputFile {
    InputFile {
        node_num: 2,
        total_cycles: 50,
        channel_num: 1,
        switching: "store_and_forward".to_string(),
        nodes: vec![
            NodeInfo { node_id: "node1".to_string(), node_type: "coordinator".to_string() },
            NodeInfo { node_id: "node2".to_string(), node_type: "router".to_string() },
        ],
        packets: vec![PacketInfo {
            cycle_num: 40,
            src_id: "node1".to_string(),
            dest_id: "node2".to_string(),
            msg: "Hello, World!".to_string(),
        }],
        neighbors: links(&[("node1", &["node2"]), ("node2", &["node1"])]),
        routing: None,
        rec_table: None,
        log_range: None,
    }
}

#[test]
fn test_sim_build() {
    let mut table = VidTable::new();
    let sim_builder = SimBuilder::new(two_node_input());
    let sim = sim_builder.build(&mut table).unwrap();

    assert_eq!(sim.node_num, 2);
    assert_eq!(sim.total_cycles, 50);
    assert_eq!(sim.channel_num, 1);
    assert_eq!(sim.cur_cycles, 0);
    assert_eq!(sim.nodes.nodes.len(), 2);
    assert_eq!(sim.nodes.nodes[0].id, "node1");
    assert_eq!(sim.nodes.nodes[0].node_type, NodeType::Coordinator);
    assert_eq!(sim.nodes.nodes[0].packets.len(), 1);
    assert_eq!(sim.nodes.nodes[0].packets[&40].source_id, "node1");
    assert_eq!(sim.nodes.nodes[0].packets[&40].dest_id, "node2");
    assert_eq!(sim.nodes.nodes[0].packets[&40].message, "Hello, World!");
    assert_eq!(sim.nodes.nodes[1].id, "node2");
    assert_eq!(sim.nodes.nodes[1].node_type, NodeType::Router);
    assert_eq!(sim.nodes.nodes[1].packets.len(), 0);
    assert_eq!(sim.log_range, vec![0, 50]);
    assert_eq!(get_vid(&table, "broadcast"), Some(u32::MAX));
    assert_eq!(get_vid(&table, "node1"), Some(1));
}

#[test]
fn build_errors() {
    let mut table = VidTable::new();
    let mut input = two_node_input();
    input.switching = "teleport".to_string();
    assert!(matches!(SimBuilder::new(input).build(&mut table), Err(SimError::InvalidSwitching)));
    let mut input = two_node_input();
    input.routing = Some("flood".to_string());
    assert!(matches!(SimBuilder::new(input).build(&mut table), Err(SimError::UnknownRouting)));
    let mut input = two_node_input();
    input.channel_num = 0;
    assert!(matches!(SimBuilder::new(input).build(&mut table), Err(SimError::BadChannel)));
    let mut table = VidTable::new();
    table.coordinator_cnt = 5;
    assert!(matches!(
        SimBuilder::new(two_node_input()).build(&mut table),
        Err(SimError::TooManyCoordinators)
    ));
    // the counter is out of range, but no coordinator is made: the build goes through
    let mut table = VidTable::new();
    table.coordinator_cnt = 5;
    let mut input = two_node_input();
    input.nodes[0].node_type = "router".to_string();
    assert!(SimBuilder::new(input).build(&mut table).is_ok());
    assert_eq!(table.coordinator_cnt, 5);
    // with the counter in range coordinators take the ids in turn, as many as there are
    let mut table = VidTable::new();
    let mut input = two_node_input();
    input.channel_num = 2;
    input.routing = Some("multi_tree".to_string());
    input.nodes[1].node_type = "coordinator".to_string();
    input.nodes.push(NodeInfo { node_id: "node3".to_string(), node_type: "coordinator".to_string() });
    let sim = SimBuilder::new(input).build(&mut table).unwrap();
    assert_eq!(sim.nodes.nodes.len(), 3);
    assert_eq!(table.coordinator_cnt, 2);
    // the third coordinator has the id of the first, whose name has left the table
    assert_eq!(get_vid(&table, "node3"), Some(1));
    assert_eq!(get_vid(&table, "node2"), Some(2));
    assert_eq!(get_vid(&table, "node1"), None);
}

#[test]
fn test_run_cycle() {
    let mut table = VidTable::new();
    let mut log = Log::new();
    add_to_vid_table(&mut table, u32::MAX, "broadcast");

    let packets: HashMap<u32, InjectionPacket> = HashMap::new();

    let mut neighbors = StrMap::new();
    neighbors.insert("node1", vec!["node2".to_string()]);
    neighbors.insert("node2", vec!["node1".to_string()]);

    let rec_table = RecTable { table: HashMap::new() };

    let mut nodes = Nodes::new(
        vec![
            Node::new(
                "node1",
                1,
                &Switching::StoreAndForward,
                "default",
                &NodeType::Coordinator,
                packets,
                &mut table,
            )
            .unwrap(),
            Node::new(
                "node2",
                1,
                &Switching::StoreAndForward,
                "default",
                &NodeType::Router,
                HashMap::new(),
                &mut table,
            )
            .unwrap(),
        ],
        neighbors,
        rec_table,
    );

    nodes.run_cycle(0, &table, &mut log).unwrap();

    assert_eq!(*nodes.nodes[0].hardware.state.get(), State::Receiving);
    assert_eq!(*nodes.nodes[1].hardware.state.get(), State::Sending);

    nodes.run_cycle(1, &table, &mut log).unwrap();
}

/// Numbers that keep the nodes from asking for parents on their own, and
/// give each resending link an extra wait from its window: the least for
/// nodes at even places, the largest for nodes at odd places.
fn quiet_draws(nodes: &Nodes) -> Vec<NodeDraws> {
    draws_with(nodes, false)
}

fn draws_with(nodes: &Nodes, emit: bool) -> Vec<NodeDraws> {
    nodes
        .nodes
        .iter()
        .enumerate()
        .map(|(i, node)| {
            let r = node.hardware.state.get_resend_times() as u32;
            let sending = *node.hardware.state.get() == State::Sending;
            let backoff = if sending && 0 < r && r < 3 {
                if i % 2 == 0 {
                    1 << (r - 1)
                } else {
                    (1 << (r + 1)) - 1
                }
            } else {
                0
            };
            NodeDraws { emit, pick: 0, probes: vec![false; 8], picks: vec![], backoff }
        })
        .collect()
}

#[test]
fn two_nodes_store_and_forward_deliver() {
    let mut table = VidTable::new();
    let mut log = Log::new();
    let mut sim = SimBuilder::new(two_node_input()).build(&mut table).unwrap();
    let mut joined_at = None;
    for cycle in 0..50 {
        let draws = quiet_draws(&sim.nodes);
        sim.nodes.run_cycle_with(cycle, &draws, &table, &mut log).unwrap();
        if joined_at.is_none() && sim.nodes.nodes.iter().all(|n| n.network.is_joined()) {
            joined_at = Some(cycle);
        }
    }
    // parent request at 0, offer, join request, join answer: three cycles each
    assert_eq!(joined_at, Some(10));
    assert_eq!(sim.nodes.nodes[1].network.get_parent_pid(&table), vec![Some("node1".to_string())]);
    let all = get_all_log(&log);
    let hello: Vec<_> = all.iter().filter(|e| e.message == "Hello, World!").collect();
    assert_eq!(hello.len(), 1);
    assert_eq!(hello[0].from_id, "node1");
    assert_eq!(hello[0].dest_id, "node2");
    assert!(hello[0].is_delivered);
    assert_eq!(hello[0].send_cycle, Some(40));
    assert_eq!(hello[0].last_receive_cycle, Some(40));
    assert_eq!(hello[0].route_info, vec!["node1", "node1", "node2"]);
    assert_eq!(hello[0].flits_len, 1);
    for e in all.iter() {
        assert_eq!(e.route_info[0], e.from_id);
    }
    let stats = collect_stats(&log, 40, 41).unwrap();
    assert_eq!(stats.total_packets, 1);
    assert_eq!(stats.undelivered_packets, 0);
    assert_eq!(stats.latencies, vec![(0, 1)]);
    assert_eq!(stats.total_flits, 1);
    assert_eq!(stats.collision_count, 0);
}

#[test]
fn random_run_of_two_nodes_ends_at_its_last_cycle() {
    let mut table = VidTable::new();
    let mut log = Log::new();
    let mut sim = SimBuilder::new(two_node_input()).build(&mut table).unwrap();
    // whatever is drawn, the run goes through to its last cycle
    sim.run(&table, &mut log).unwrap();
    assert_eq!(sim.cur_cycles, 50);
    assert!(sim.nodes.nodes[0].network.is_joined());
    for e in get_all_log(&log).iter() {
        assert_eq!(e.route_info[0], e.from_id);
    }
}

#[test]
fn five_node_line_keeps_its_invariants() {
    let names = ["c1", "r1", "r2", "r3", "c2"];
    let types = ["coordinator", "router", "router", "router", "coordinator"];
    let near: [&[&str]; 5] = [&["r1"], &["c1", "r2"], &["r1", "r3"], &["r2", "c2"], &["r3"]];
    let mut table = VidTable::new();
    let mut log = Log::new();
    let input = InputFile {
        node_num: 5,
        total_cycles: 400,
        channel_num: 2,
        switching: "store_and_forward".to_string(),
        nodes: (0..5)
            .map(|i| NodeInfo { node_id: names[i].to_string(), node_type: types[i].to_string() })
            .collect(),
        packets: vec![],
        neighbors: links(&[
            ("c1", near[0]),
            ("r1", near[1]),
            ("r2", near[2]),
            ("r3", near[3]),
            ("c2", near[4]),
        ]),
        routing: Some("dynamic".to_string()),
        rec_table: None,
        log_range: None,
    };
    let mut sim = SimBuilder::new(input).build(&mut table).unwrap();
    // the run may end early on a violation of the protocol; what it leaves
    // behind keeps the invariants all the same
    let _ = sim.run(&table, &mut log);
    assert!(sim.cur_cycles <= 400);
    for (i, node) in sim.nodes.nodes.iter().enumerate() {
        let core = match &node.network.core {
            recsimu::network::core_functions::CoreFunction::DynamicFunction(d) => d,
            _ => panic!("dynamic core expected"),
        };
        let parents = node.network.get_parent_pid(&table);
        assert_eq!(parents.len(), 2);
        for c in 0..2 {
            if core.tree.network_joined[c] {
                assert_ne!(core.tree.parent_ids[c], 0);
            }
            if let Some(p) = &parents[c] {
                assert!(p == names[i] || near[i].contains(&p.as_str()));
            }
            assert_eq!(core.root_ids[c], c as u32 + 1);
            assert!(core.rec_info[c].is_none());
        }
    }
    assert!(sim.nodes.nodes[0].network.get_parent_pid(&table)[0] == Some("c1".to_string()));
    assert!(sim.nodes.nodes[4].network.get_parent_pid(&table)[1] == Some("c2".to_string()));
    for e in get_all_log(&log).iter() {
        assert_eq!(e.route_info[0], e.from_id);
        if let (true, Some(sent), Some(received)) = (e.is_delivered, e.send_cycle, e.last_receive_cycle) {
            assert!(received >= sent);
        }
    }
}

#[test]
fn collision_is_recorded() {
    let mut table = VidTable::new();
    let mut log = Log::new();
    add_to_vid_table(&mut table, u32::MAX, "broadcast");
    let mk = |id: &str, t: NodeType, table: &mut VidTable| {
        Node::new(id, 1, &Switching::StoreAndForward, "default", &t, HashMap::new(), table).unwrap()
    };
    let c = mk("C", NodeType::Coordinator, &mut table);
    let r1 = mk("R1", NodeType::Router, &mut table);
    let r2 = mk("R2", NodeType::Router, &mut table);
    let mut nodes = Nodes::new(
        vec![c, r1, r2],
        links(&[("C", &["R1", "R2"]), ("R1", &["C"]), ("R2", &["C"])]),
        RecTable { table: HashMap::new() },
    );
    // both routers broadcast their first parent request in the same cycle
    nodes.run_cycle(10, &table, &mut log).unwrap();
    assert_eq!(log.collision_info.len(), 1);
    assert_eq!(log.collision_info[0].cycle, 10);
    assert_eq!(log.collision_info[0].dest_id, "C");
    assert_eq!(log.collision_info[0].from_ids, vec!["R1".to_string(), "R2".to_string()]);
    assert_eq!(*nodes.nodes[0].hardware.state.get(), State::Idle);
    assert!(nodes.flit_buffers.keys.is_empty());
}

#[test]
fn node_without_neighbours_stays_alone() {
    let mut table = VidTable::new();
    let mut log = Log::new();
    add_to_vid_table(&mut table, u32::MAX, "broadcast");
    let r = Node::new(
        "R",
        1,
        &Switching::StoreAndForward,
        "default",
        &NodeType::Router,
        HashMap::new(),
        &mut table,
    )
    .unwrap();
    let c = Node::new(
        "C",
        1,
        &Switching::StoreAndForward,
        "default",
        &NodeType::Coordinator,
        HashMap::new(),
        &mut table,
    )
    .unwrap();
    let mut nodes = Nodes::new(vec![r, c], links(&[("R", &[])]), RecTable { table: HashMap::new() });
    for cycle in 0..200 {
        nodes.run_cycle(cycle, &table, &mut log).unwrap();
        assert!(nodes.flit_buffers.keys.is_empty());
        assert_eq!(*nodes.nodes[1].hardware.state.get(), State::Idle);
    }
    assert!(!nodes.nodes[0].network.is_joined());
}

#[test]
fn unicast_reaches_only_a_current_neighbour() {
    let mut table = VidTable::new();
    let mut log = Log::new();
    add_to_vid_table(&mut table, u32::MAX, "broadcast");
    let mk = |id: &str, table: &mut VidTable| {
        Node::new(
            id,
            1,
            &Switching::StoreAndForward,
            "default",
            &NodeType::Coordinator,
            HashMap::new(),
            table,
        )
        .unwrap()
    };
    let mut a = mk("A", &mut table);
    let b = mk("B", &mut table);
    let flit = Flit::Header(HeaderFlit {
        source_id: "A".to_string(),
        dest_id: "X".to_string(),
        next_id: "B".to_string(),
        prev_id: "A".to_string(),
        flits_len: 2,
        data: vec![1],
        packet_id: 3,
        channel_id: 0,
    });
    a.hardware.send_flit(&flit).unwrap();
    a.hardware.update_state_with(0);
    assert_eq!(*a.hardware.state.get(), State::Sending);
    let mut nodes = Nodes::new(
        vec![a, b],
        links(&[("A", &["X"]), ("B", &["A"])]),
        RecTable { table: HashMap::new() },
    );
    nodes.message_handle(0, &table, &mut log).unwrap();
    assert_eq!(*nodes.nodes[1].hardware.state.get(), State::Idle);
    // with the link in place the flit arrives, and the receiver owes an acknowledgement
    nodes.update_system(&links(&[("A", &["B"]), ("B", &["A"])]));
    nodes.message_handle(1, &table, &mut log).unwrap();
    assert_eq!(*nodes.nodes[1].hardware.state.get(), State::Receiving);
    assert!(nodes.nodes[1].hardware.ack_buffer.is_ack());
    // a unicast flit stays pending until it is acknowledged
    assert_eq!(nodes.nodes[0].hardware.retransmission_buffer, flit);
}

#[test]
fn topology_change_tells_nodes_their_lost_neighbours() {
    let mut table = VidTable::new();
    add_to_vid_table(&mut table, 40, "p");
    add_to_vid_table(&mut table, 41, "q");
    let old = vec!["p".to_string(), "q".to_string()];
    let new = vec!["q".to_string()];
    let o = UpdateOption::new(&old, &new, &table).unwrap();
    assert_eq!(o.pids, vec!["p".to_string()]);
    assert_eq!(o.vids, vec![40]);
    let o = UpdateOption::new(&old, &old, &table).unwrap();
    assert!(o.pids.is_empty() && o.vids.is_empty());
    let strangers = vec!["z".to_string()];
    assert!(matches!(UpdateOption::new(&strangers, &new, &table), Err(SimError::UnknownNode)));
}

fn dynamic_core(nodes: &Nodes, i: usize) -> &recsimu::network::core_functions::dynamic::DynamicFunction {
    match &nodes.nodes[i].network.core {
        recsimu::network::core_functions::CoreFunction::DynamicFunction(d) => d,
        _ => panic!("dynamic core expected"),
    }
}

#[test]
fn lost_edge_triggers_reconfiguration() {
    let mut table = VidTable::new();
    let mut log = Log::new();
    add_to_vid_table(&mut table, u32::MAX, "broadcast");
    let mk = |id: &str, t: NodeType, table: &mut VidTable| {
        Node::new(id, 1, &Switching::StoreAndForward, "dynamic", &t, HashMap::new(), table).unwrap()
    };
    let c = mk("C", NodeType::Coordinator, &mut table);
    let mut r1 = mk("R1", NodeType::Router, &mut table);
    let mut r2 = mk("R2", NodeType::Router, &mut table);
    let (v1, v2) = (get_vid(&table, "R1").unwrap(), get_vid(&table, "R2").unwrap());
    // the chain C - R1 - R2, joined
    for (node, parent, kids) in [(&mut r1, 1u32, vec![v2]), (&mut r2, v1, vec![])] {
        match &mut node.network.core {
            recsimu::network::core_functions::CoreFunction::DynamicFunction(d) => {
                d.tree.send_packet_buffer.clear();
                d.tree.parent_ids[0] = parent;
                d.tree.network_joined[0] = true;
                for k in kids {
                    d.children_ids.insert(0, k);
                }
            }
            _ => panic!("dynamic core expected"),
        }
    }
    let mut rec = HashMap::new();
    rec.insert(
        7u32,
        Update { new_neighbors: links(&[("C", &[]), ("R1", &["R2"]), ("R2", &["R1"])]) },
    );
    let mut nodes = Nodes::new(
        vec![c, r1, r2],
        links(&[("C", &["R1"]), ("R1", &["C", "R2"]), ("R2", &["R1"])]),
        RecTable { table: rec },
    );
    nodes.run_cycle(6, &table, &mut log).unwrap();
    nodes.run_cycle(7, &table, &mut log).unwrap();
    assert_eq!(nodes.neighbors.get("R1"), Some(&vec!["R2".to_string()]));
    // R1 has lost its parent: it starts the reconfiguration and freezes R2
    assert_eq!(dynamic_core(&nodes, 1).tree.parent_ids, vec![0]);
    assert_eq!(dynamic_core(&nodes, 1).root_ids, vec![v1]);
    let info = dynamic_core(&nodes, 1).rec_info[0].as_ref().unwrap();
    assert_eq!(info.init_node_id, v1);
    assert_eq!(info.old_parent_id, None);
    assert_eq!(info.children, vec![v2]);
    assert_eq!(*nodes.nodes[1].hardware.state.get(), State::Sending);
    match &nodes.nodes[1].hardware.retransmission_buffer {
        Flit::Header(h) => {
            assert_eq!(h.next_id, "R2");
            assert_eq!(h.source_id, "R1");
        }
        _ => panic!("header expected"),
    }
    // R2 keeps its parent and has not heard of anything yet
    assert_eq!(dynamic_core(&nodes, 2).tree.parent_ids, vec![v1]);
    assert!(dynamic_core(&nodes, 2).rec_info[0].is_none());
    // two cycles later R2 has worked the freeze off
    nodes.run_cycle(8, &table, &mut log).unwrap();
    nodes.run_cycle(9, &table, &mut log).unwrap();
    assert_eq!(dynamic_core(&nodes, 2).root_ids, vec![v1]);
    let info = dynamic_core(&nodes, 2).rec_info[0].as_ref().unwrap();
    assert_eq!(info.init_node_id, v1);
    assert_eq!(info.old_parent_id, Some(v1));
}

#[test]
fn three_node_line_routes_through_the_middle() {
    let mut table = VidTable::new();
    let mut log = Log::new();
    let input = InputFile {
        node_num: 3,
        total_cycles: 200,
        channel_num: 1,
        switching: "store_and_forward".to_string(),
        nodes: vec![
            NodeInfo { node_id: "c".to_string(), node_type: "coordinator".to_string() },
            NodeInfo { node_id: "r1".to_string(), node_type: "router".to_string() },
            NodeInfo { node_id: "r2".to_string(), node_type: "router".to_string() },
        ],
        packets: vec![
            PacketInfo {
                cycle_num: 150,
                src_id: "r2".to_string(),
                dest_id: "c".to_string(),
                msg: "x".repeat(100),
            },
            PacketInfo {
                cycle_num: 170,
                src_id: "c".to_string(),
                dest_id: "r2".to_string(),
                msg: "down".to_string(),
            },
        ],
        neighbors: links(&[("c", &["r1"]), ("r1", &["c", "r2"]), ("r2", &["r1"])]),
        routing: Some("multi_tree".to_string()),
        rec_table: None,
        log_range: None,
    };
    let mut sim = SimBuilder::new(input).build(&mut table).unwrap();
    let mut joined_at = vec![None; 3];
    for cycle in 0..200 {
        // every 25 cycles the nodes that have yet to join ask again
        let draws = draws_with(&sim.nodes, cycle % 25 == 24);
        sim.nodes.run_cycle_with(cycle, &draws, &table, &mut log).unwrap();
        for (i, node) in sim.nodes.nodes.iter().enumerate() {
            if joined_at[i].is_none() && node.network.is_joined() {
                joined_at[i] = Some(cycle);
            }
        }
    }
    assert_eq!(joined_at, vec![Some(0), Some(10), Some(40)]);
    assert_eq!(sim.nodes.nodes[1].network.get_parent_pid(&table), vec![Some("c".to_string())]);
    assert_eq!(sim.nodes.nodes[2].network.get_parent_pid(&table), vec![Some("r1".to_string())]);
    let all = get_all_log(&log);
    let up: Vec<_> = all.iter().filter(|e| e.message.len() == 100 && e.is_delivered).collect();
    assert_eq!(up.len(), 1);
    assert_eq!(up[0].dest_id, "c");
    assert_eq!(up[0].flits_len, 3);
    let down: Vec<_> = all.iter().filter(|e| e.message == "down" && e.is_delivered).collect();
    assert_eq!(down.len(), 1);
    assert_eq!(down[0].dest_id, "r2");
    assert_eq!(down[0].route_info, vec!["c", "r1", "r2"]);
    assert_eq!(down[0].last_receive_cycle, Some(173));
    // the entry of the first hop holds the cycle of the sending
    let first_hop: Vec<_> = all.iter().filter(|e| e.message == "down" && !e.is_delivered).collect();
    assert_eq!(first_hop.len(), 1);
    assert_eq!(first_hop[0].send_cycle, Some(170));
}

fn line_input() -> InputFile {
    let names = ["c1", "r1", "r2", "r3", "c2"];
    let types = ["coordinator", "router", "router", "router", "coordinator"];
    InputFile {
        node_num: 5,
        total_cycles: 400,
        channel_num: 2,
        switching: "store_and_forward".to_string(),
        nodes: (0..5)
            .map(|i| NodeInfo { node_id: names[i].to_string(), node_type: types[i].to_string() })
            .collect(),
        packets: vec![],
        neighbors: links(&[
            ("c1", &["r1"]),
            ("r1", &["c1", "r2"]),
            ("r2", &["r1", "r3"]),
            ("r3", &["r2", "c2"]),
            ("c2", &["r3"]),
        ]),
        routing: Some("dynamic".to_string()),
        rec_table: None,
        log_range: None,
    }
}

/// Runs the line of five nodes through its first 400 cycles, in which every
/// node joins both channels, and returns the cycle in which each did.
fn run_line_until_joined(
    sim: &mut recsimu::sim::Sim,
    table: &VidTable,
    log: &mut Log,
) -> Vec<Option<u32>> {
    let mut joined_at = vec![None; 5];
    for cycle in 0..400 {
        let mut draws = draws_with(&sim.nodes, false);
        // every ten cycles one node, each in its turn, asks for a parent
        if cycle % 10 == 9 {
            let turn = (cycle / 10) as usize % 5;
            draws[turn].emit = true;
            draws[turn].pick = cycle / 40;
        }
        // those that answer offer their channels in turn
        for d in draws.iter_mut() {
            d.picks = vec![cycle / 32; 8];
        }
        sim.nodes.run_cycle_with(cycle, &draws, table, log).unwrap();
        for (i, node) in sim.nodes.nodes.iter().enumerate() {
            if joined_at[i].is_none() && node.network.is_joined() {
                joined_at[i] = Some(cycle);
            }
        }
    }
    joined_at
}

#[test]
fn five_node_line_joins_on_two_channels() {
    let mut table = VidTable::new();
    let mut log = Log::new();
    let mut sim = SimBuilder::new(line_input()).build(&mut table).unwrap();
    let joined_at = run_line_until_joined(&mut sim, &table, &mut log);
    assert_eq!(joined_at, vec![Some(199), Some(141), Some(63), Some(111), Some(187)]);
    let parents: Vec<Vec<Option<String>>> =
        sim.nodes.nodes.iter().map(|n| n.network.get_parent_pid(&table)).collect();
    let p = |a: &str, b: &str| vec![Some(a.to_string()), Some(b.to_string())];
    assert_eq!(
        parents,
        vec![p("c1", "r1"), p("c1", "r2"), p("r1", "r3"), p("r2", "c2"), p("r3", "c2")]
    );
    for node in sim.nodes.nodes.iter() {
        let core = match &node.network.core {
            recsimu::network::core_functions::CoreFunction::DynamicFunction(d) => d,
            _ => panic!("dynamic core expected"),
        };
        assert_eq!(core.root_ids, vec![1, 2]);
        assert!(core.rec_info.iter().all(|r| r.is_none()));
    }
    assert_eq!(log.collision_info.is_empty(), false);
}

#[test]
fn lost_edge_in_the_line_freezes_both_sides() {
    let mut table = VidTable::new();
    let mut log = Log::new();
    let mut input = line_input();
    let mut rec = HashMap::new();
    rec.insert(
        400u32,
        Update {
            new_neighbors: links(&[
                ("c1", &["r1"]),
                ("r1", &["c1"]),
                ("r2", &["r3"]),
                ("r3", &["r2", "c2"]),
                ("c2", &["r3"]),
            ]),
        },
    );
    input.rec_table = Some(rec);
    let mut sim = SimBuilder::new(input).build(&mut table).unwrap();
    run_line_until_joined(&mut sim, &table, &mut log);
    let ids: Vec<u32> =
        ["c1", "r1", "r2", "r3", "c2"].iter().map(|n| get_vid(&table, n).unwrap()).collect();
    let (c1, r1, r2, r3, c2) = (ids[0], ids[1], ids[2], ids[3], ids[4]);
    for cycle in 400..1400 {
        let mut draws = draws_with(&sim.nodes, false);
        // a node that looks for a new parent asks again every fourth cycle
        for d in draws.iter_mut() {
            d.probes = vec![cycle % 4 == 0; 2];
        }
        sim.nodes.run_cycle_with(cycle, &draws, &table, &mut log).unwrap();
        if cycle == 400 {
            // the nodes next to the lost edge start at once
            assert_eq!(dynamic_core(&sim.nodes, 2).tree.parent_ids, vec![0, r3]);
            assert_eq!(dynamic_core(&sim.nodes, 1).tree.parent_ids, vec![c1, 0]);
            assert_eq!(dynamic_core(&sim.nodes, 2).root_ids, vec![r2, 2]);
            assert_eq!(dynamic_core(&sim.nodes, 1).root_ids, vec![1, r1]);
            assert!(dynamic_core(&sim.nodes, 3).rec_info[0].is_none());
        }
    }
    // the roots have settled: one for each side of the lost edge
    let roots: Vec<Vec<u32>> = (0..5).map(|i| dynamic_core(&sim.nodes, i).root_ids.clone()).collect();
    assert_eq!(roots, vec![vec![1, r1], vec![1, r1], vec![r2, 2], vec![r2, 2], vec![r2, 2]]);
    // everyone on a cut-off side knows of the reconfiguration and who began it
    for (i, channel, init) in [(0, 1, r1), (1, 1, r1), (2, 0, r2), (3, 0, r2), (4, 0, r2)] {
        let core = dynamic_core(&sim.nodes, i);
        let info = core.rec_info[channel].as_ref().unwrap();
        assert_eq!(info.init_node_id, init);
        assert!(core.rec_info[1 - channel].is_none());
    }
    // no side has found a way back, and nobody is left looking
    assert_eq!(dynamic_core(&sim.nodes, 2).tree.network_joined, vec![false, true]);
    assert_eq!(dynamic_core(&sim.nodes, 1).tree.network_joined, vec![true, false]);
    assert!(!sim.nodes.nodes[2].network.is_joined());
    assert!(sim.nodes.nodes[3].network.is_joined());
    assert_eq!(dynamic_core(&sim.nodes, 2).tree.parent_ids, vec![0, r3]);
    assert_eq!(dynamic_core(&sim.nodes, 1).tree.parent_ids, vec![c1, 0]);
    for i in 0..5 {
        for info in dynamic_core(&sim.nodes, i).rec_info.iter().flatten() {
            assert!(!info.is_rec);
            assert_eq!(info.rec_cnt, 0);
        }
    }
    // the lost neighbours are no children any more
    assert_eq!(dynamic_core(&sim.nodes, 1).children_ids.table, vec![vec![], vec![c1]]);
    assert_eq!(dynamic_core(&sim.nodes, 2).children_ids.table, vec![vec![r3], vec![]]);
    assert_eq!(dynamic_core(&sim.nodes, 4).tree.parent_ids, vec![r3, c2]);
}
