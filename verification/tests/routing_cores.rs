use recsimu::error::SimError;
use recsimu::network::core_functions::default::DefaultFunction;
use recsimu::network::core_functions::dynamic::{ChildrenTable, DynamicFunction, RecInfo};
use recsimu::network::core_functions::message::{classify, MessageKind};
use recsimu::network::core_functions::multi_tree::MultiTreeFunction;
use recsimu::network::core_functions::packets::{Packet, RoutingPacket};
use recsimu::network::option::UpdateOption;
use recsimu::network::vid::{add_to_vid_table, VidTable};
use recsimu::sim::node_type::NodeType;

const BROADCAST_ID: u32 = u32::MAX;

fn packet(message: &str, source: u32, dest: u32, prev: u32, next: u32, channel: u8) -> RoutingPacket {
    RoutingPacket {
        message: message.to_string(),
        packet_id: 0,
        dest_id: dest,
        source_id: source,
        prev_id: prev,
        channel_id: channel,
        next_id: next,
    }
}

#[test]
fn test_process_received_packet_coordinator() {
    let mut protocol = DefaultFunction::new_with(&NodeType::Coordinator, 1);
    let rec_packet = RoutingPacket {
        message: "preq".to_string(),
        packet_id: 0,
        dest_id: BROADCAST_ID,
        source_id: 1,
        prev_id: 0,
        channel_id: 0,
        next_id: 0,
    };
    let packets = protocol.tree.process_received_packet_coordinator(&rec_packet, 0).unwrap();

    assert_eq!(packets.len(), 1);
    assert_eq!(packets[0].message, "pack");
    assert_eq!(packets[0].dest_id, 1);
}

#[test]
fn test_process_received_packet_router() {
    let mut protocol = DefaultFunction::new_with(&NodeType::Router, 5);
    protocol.tree.network_joined[0] = true;
    let rec_packet = RoutingPacket {
        message: "preq".to_string(),
        packet_id: 0,
        dest_id: BROADCAST_ID,
        source_id: 1,
        prev_id: 0,
        channel_id: 0,
        next_id: 0,
    };
    let packets = protocol.tree.process_received_packet_router(&rec_packet, 0).unwrap();

    assert_eq!(packets.len(), 1);
    assert_eq!(packets[0].message, "pack");
    assert_eq!(packets[0].dest_id, 1);
}

#[test]
fn router_answers_parent_request_on_a_joined_channel() {
    let mut router = MultiTreeFunction::new_with(&NodeType::Router, 2, 50);
    let preq = packet("preq", 60, BROADCAST_ID, 60, BROADCAST_ID, 255);
    // not joined anywhere: silent
    assert_eq!(router.process_received_packet_router(&preq, 0).unwrap().len(), 0);
    router.parent_ids[0] = 3;
    assert_eq!(router.process_received_packet_router(&preq, 0).unwrap().len(), 0);
    router.network_joined[1] = true;
    router.parent_ids[1] = 2;
    let out = router.process_received_packet_router(&preq, 7).unwrap();
    assert_eq!(out.len(), 1);
    assert_eq!(out[0].message, "pack");
    assert_eq!(out[0].dest_id, 60);
    assert_eq!(out[0].next_id, 60);
    assert_eq!(out[0].source_id, 50);
    assert_eq!(out[0].prev_id, 50);
    assert_eq!(out[0].channel_id, 1);
    assert_eq!(out[0].packet_id, 0);
    // asked for a channel that the router has not joined: silent
    let preq0 = packet("preq", 60, BROADCAST_ID, 60, BROADCAST_ID, 0);
    assert_eq!(router.process_received_packet_router(&preq0, 0).unwrap().len(), 0);
}

#[test]
fn join_handshake_between_router_and_coordinator() {
    let mut c = MultiTreeFunction::new_with(&NodeType::Coordinator, 1, 1);
    let mut r = MultiTreeFunction::new_with(&NodeType::Router, 1, 77);
    assert!(!r.is_joined());
    assert!(c.is_joined());
    assert_eq!(c.get_parent_id(), vec![Some(1)]);
    assert_eq!(r.get_parent_id(), vec![None]);
    let preq = r.send_packet_buffer[0].clone();
    assert_eq!(preq.message, "preq");
    assert_eq!(preq.channel_id, 255);
    let pack = c.process_received_packet(&preq, 0).unwrap();
    assert_eq!(pack.len(), 1);
    assert_eq!(pack[0], RoutingPacket { packet_id: 0, ..packet("pack", 1, 77, 1, 77, 0) });
    let jreq = r.process_received_packet(&pack[0], 0).unwrap();
    assert_eq!(jreq.len(), 1);
    assert_eq!(jreq[0], packet("jreq", 77, 1, 77, 1, 0));
    assert_eq!(r.get_parent_id(), vec![Some(1)]);
    assert!(!r.is_joined());
    let jack = c.process_received_packet(&jreq[0], 0).unwrap();
    assert_eq!(jack.len(), 1);
    assert_eq!(jack[0], RoutingPacket { packet_id: 1, ..packet("jack", 1, 77, 1, 77, 0) });
    assert_eq!(c.next_node_id(77, 0), Some(77));
    let none = r.process_received_packet(&jack[0], 0).unwrap();
    assert_eq!(none.len(), 0);
    assert!(r.is_joined());
    // on two channels the node goes on to ask for the channel that is left
    let mut two = MultiTreeFunction::new_with(&NodeType::Router, 2, 78);
    two.parent_ids[1] = 2;
    let more = two.process_received_packet(&packet("jack", 2, 78, 2, 78, 1), 9).unwrap();
    assert_eq!(more, vec![packet("preq", 78, BROADCAST_ID, 78, BROADCAST_ID, 0)]);
    assert_eq!(two.network_joined, vec![false, true]);
    // with a parent on every channel it asks for none, also where a join is still open
    let mut both = MultiTreeFunction::new_with(&NodeType::Router, 2, 79);
    both.parent_ids[0] = 1;
    both.parent_ids[1] = 2;
    let more = both.process_received_packet(&packet("jack", 2, 79, 2, 79, 1), 9).unwrap();
    assert_eq!(more.len(), 0);
    assert_eq!(both.network_joined, vec![false, true]);
    assert_eq!(both.parent_ids, vec![1, 2]);
    // a second offer is ignored
    assert_eq!(r.process_received_packet(&pack[0], 0).unwrap().len(), 0);
}

#[test]
fn packets_for_other_hops_are_ignored() {
    let mut r = MultiTreeFunction::new_with(&NodeType::Router, 1, 77);
    let p = packet("pack", 1, 77, 1, 78, 0);
    assert_eq!(r.process_received_packet(&p, 0).unwrap().len(), 0);
    assert_eq!(r.get_parent_id(), vec![None]);
}

#[test]
fn protocol_violations_are_errors() {
    let mut c = MultiTreeFunction::new_with(&NodeType::Coordinator, 1, 1);
    let mut r = MultiTreeFunction::new_with(&NodeType::Router, 1, 77);
    let mut e = MultiTreeFunction::new_with(&NodeType::EndDevice, 1, 78);
    assert_eq!(
        c.process_received_packet(&packet("pack", 5, BROADCAST_ID, 5, 1, 0), 0),
        Err(SimError::UnexpectedMessage)
    );
    assert_eq!(
        r.process_received_packet(&packet("jreq", 5, 77, 5, 77, 0), 0),
        Err(SimError::UnexpectedMessage)
    );
    assert_eq!(
        c.process_received_packet(&packet("jack", 5, 9, 5, 1, 0), 0),
        Err(SimError::UnexpectedMessage)
    );
    assert_eq!(
        r.process_received_packet(&packet("pack", 5, 77, 5, 77, 3), 0),
        Err(SimError::BadChannel)
    );
    assert_eq!(
        e.process_received_packet(&packet("pack", 5, 78, 5, 78, 0), 0),
        Err(SimError::UnknownNodeType)
    );
}

#[test]
fn user_packet_is_routed_by_table_then_parent() {
    let mut r = MultiTreeFunction::new_with(&NodeType::Router, 1, 77);
    r.parent_ids[0] = 1;
    r.update_table(90, 80, 0);
    let down = r.process_received_packet(&packet("hi", 5, 90, 5, 77, 0), 0).unwrap();
    assert_eq!(down[0], packet("hi", 5, 90, 77, 80, 0));
    let up = r.process_received_packet(&packet("hi", 5, 91, 5, 77, 0), 0).unwrap();
    assert_eq!(up[0], RoutingPacket { packet_id: 1, ..packet("hi", 5, 91, 77, 1, 0) });
    assert_eq!(r.next_node_id(BROADCAST_ID, 0), Some(BROADCAST_ID));
    let mut orphan = MultiTreeFunction::new_with(&NodeType::Router, 1, 78);
    assert_eq!(orphan.next_node_id(5, 0), None);
    assert_eq!(orphan.channel_id(), 0);
}

#[test]
fn channels_take_turns() {
    let mut r = MultiTreeFunction::new_with(&NodeType::Router, 3, 77);
    assert_eq!(r.channel_id(), 0);
    assert_eq!(r.channel_id(), 1);
    assert_eq!(r.channel_id(), 2);
    assert_eq!(r.channel_id(), 0);
}

#[test]
fn periodic_parent_request() {
    let mut r = MultiTreeFunction::new_with(&NodeType::Router, 2, 77);
    r.update_with(false, 0, &vec![]).unwrap();
    assert_eq!(r.send_packet_buffer.len(), 1);
    r.update_with(true, 0, &vec![]).unwrap();
    assert_eq!(r.send_packet_buffer.len(), 2);
    assert_eq!(r.send_packet_buffer[1].channel_id, 255);
    // with a parent somewhere the node asks on a channel that it has not joined
    r.parent_ids[0] = 1;
    r.update_with(true, 4, &vec![]).unwrap();
    assert_eq!(r.send_packet_buffer[2].channel_id, 0);
    r.update_with(true, 5, &vec![]).unwrap();
    assert_eq!(r.send_packet_buffer[3].channel_id, 1);
    r.network_joined[0] = true;
    r.update_with(true, 4, &vec![]).unwrap();
    assert_eq!(r.send_packet_buffer[4].channel_id, 1);
    assert_eq!(r.send_packet_buffer[4].packet_id, 3);
    // a node that has joined every channel keeps quiet
    r.network_joined[1] = true;
    r.update_with(true, 5, &vec![]).unwrap();
    assert_eq!(r.send_packet_buffer.len(), 5);
}

#[test]
fn wire_format_round_trip() {
    let mut table = VidTable::new();
    add_to_vid_table(&mut table, 5, "five");
    add_to_vid_table(&mut table, 6, "six");
    let p = packet("hello", 1, 2, 3, 4, 9);
    let data = p.encode();
    assert_eq!(data.len(), 8 + 5 + 5 * 4 + 1);
    assert_eq!(&data[0..8], &[5, 0, 0, 0, 0, 0, 0, 0]);
    assert_eq!(&data[8..13], b"hello");
    assert_eq!(RoutingPacket::decode(&data), Some(p.clone()));
    assert_eq!(RoutingPacket::decode(&vec![1, 2, 3]), None);
    let gp = Packet {
        data,
        dest_id: "x".to_string(),
        prev_id: "five".to_string(),
        next_id: "six".to_string(),
        source_id: "y".to_string(),
        packet_id: 0,
        channel_id: 9,
    };
    let q = RoutingPacket::from_general(&gp, &table).unwrap();
    assert_eq!(q, RoutingPacket { prev_id: 5, next_id: 6, ..p });
    let unknown = Packet { prev_id: "nobody".to_string(), ..gp.clone() };
    assert_eq!(RoutingPacket::from_general(&unknown, &table), Err(SimError::UnknownNode));
    let garbage = Packet { data: vec![9], ..gp };
    assert_eq!(RoutingPacket::from_general(&garbage, &table), Err(SimError::Decode));
}

#[test]
fn message_kinds() {
    let k = |s: &str| classify(&s.to_string());
    assert_eq!(k("rec"), MessageKind::Rec);
    assert_eq!(k("recr"), MessageKind::Recr);
    assert_eq!(k("tf"), MessageKind::Tf);
    assert_eq!(k("fl"), MessageKind::Fl);
    assert_eq!(k("R17"), MessageKind::Reconnect(17));
    assert_eq!(k("P4294967295"), MessageKind::Offer(u32::MAX));
    assert_eq!(k("P"), MessageKind::Malformed);
    assert_eq!(k("Round"), MessageKind::Malformed);
    assert_eq!(k("pset"), MessageKind::Pset);
    assert_eq!(k("rset"), MessageKind::Rset);
    assert_eq!(k("preq"), MessageKind::Preq);
    assert_eq!(k("pack"), MessageKind::Pack);
    assert_eq!(k("jreq"), MessageKind::Jreq);
    assert_eq!(k("jack"), MessageKind::Jack);
    assert_eq!(k("hello"), MessageKind::User);
    assert_eq!(k(""), MessageKind::User);
}

fn dynamic_router(id: u32, channels: u8) -> DynamicFunction {
    DynamicFunction::new_with(&NodeType::Router, channels, id)
}

#[test]
fn lost_parent_starts_reconfiguration() {
    let mut d = dynamic_router(50, 2);
    d.tree.parent_ids[0] = 40;
    d.tree.parent_ids[1] = 41;
    d.tree.network_joined[0] = true;
    d.tree.network_joined[1] = true;
    d.children_ids.insert(0, 60);
    d.children_ids.insert(0, 61);
    d.children_ids.insert(1, 40);
    d.tree.send_packet_buffer.clear();
    let option = UpdateOption { pids: vec!["p40".to_string()], vids: vec![40] };
    d.dynamic_rec_in_update(&vec![false, false], Some(&option));
    assert_eq!(d.tree.parent_ids, vec![0, 41]);
    assert_eq!(d.root_ids, vec![50, 2]);
    let info = d.rec_info[0].as_ref().unwrap();
    assert_eq!(info.init_node_id, 50);
    assert_eq!(info.old_parent_id, None);
    assert_eq!(info.children, vec![60, 61]);
    assert!(!info.is_rec);
    assert!(d.rec_info[1].is_none());
    let sent = &d.tree.send_packet_buffer;
    assert_eq!(sent.len(), 2);
    assert_eq!(sent[0], packet("rec", 50, 60, 50, 60, 0));
    assert_eq!(sent[1], RoutingPacket { packet_id: 1, ..packet("rec", 50, 61, 50, 61, 0) });
    // the lost neighbour is no child any more
    assert_eq!(d.children_ids.table[1], Vec::<u32>::new());
    assert_eq!(d.children_ids.table[0], vec![60, 61]);
    // a channel without parent is not joined any more; the other channel is as it was
    assert_eq!(d.tree.network_joined, vec![false, true]);
    assert!(!d.is_joined());
}

#[test]
fn frozen_leaf_answers_and_inner_node_forwards() {
    let mut leaf = dynamic_router(60, 1);
    leaf.tree.parent_ids[0] = 50;
    let (is_rec, out) = leaf.dynamic_rec(&packet("rec", 50, 60, 50, 60, 0)).unwrap();
    assert!(is_rec);
    assert_eq!(out, vec![packet("recr", 60, 50, 60, 50, 0)]);
    assert_eq!(leaf.root_ids, vec![50]);
    let info = leaf.rec_info[0].as_ref().unwrap();
    assert_eq!(info.old_parent_id, Some(50));
    assert_eq!(info.init_node_id, 50);
    let mut inner = dynamic_router(55, 1);
    inner.tree.parent_ids[0] = 50;
    inner.children_ids.insert(0, 60);
    let (_, out) = inner.dynamic_rec(&packet("rec", 50, 55, 50, 55, 0)).unwrap();
    assert_eq!(out, vec![packet("rec", 50, 60, 55, 60, 0)]);
    // the answer of the leaf is passed on towards the initiator
    let (_, out) = inner.dynamic_rec(&packet("recr", 60, 50, 60, 55, 0)).unwrap();
    assert_eq!(out, vec![RoutingPacket { packet_id: 1, ..packet("recr", 60, 50, 55, 50, 0) }]);
}

#[test]
fn initiator_begins_search_on_answer() {
    let mut d = dynamic_router(50, 1);
    d.rec_info[0] = Some(RecInfo::new(0, &vec![60], 50, None));
    let (is_rec, out) = d.dynamic_rec(&packet("recr", 60, 50, 60, 50, 0)).unwrap();
    assert!(is_rec);
    assert_eq!(out, vec![packet("R50", 50, BROADCAST_ID, 50, BROADCAST_ID, 0)]);
    assert!(d.rec_info[0].as_ref().unwrap().is_rec);
    // without a reconfiguration the answer is ignored
    let mut other = dynamic_router(50, 1);
    assert_eq!(other.dynamic_rec(&packet("recr", 60, 50, 60, 50, 0)).unwrap().1.len(), 0);
    assert_eq!(other.dynamic_rec(&packet("tf", 60, 50, 60, 50, 0)).unwrap().1.len(), 0);
    assert_eq!(other.dynamic_rec(&packet("fl", 60, 50, 60, 50, 0)).unwrap().1.len(), 0);
}

#[test]
fn root_tournament() {
    // a node outside the frozen subtree offers its root
    let mut outside = dynamic_router(70, 2);
    let (_, out) = outside.dynamic_rec(&packet("R50", 60, BROADCAST_ID, 60, BROADCAST_ID, 1)).unwrap();
    assert_eq!(out, vec![packet("P2", 70, 60, 70, 60, 1)]);
    // a frozen node answers only a larger initiator
    let mut frozen = dynamic_router(71, 1);
    frozen.rec_info[0] = Some(RecInfo::new(0, &vec![], 50, Some(3)));
    frozen.root_ids[0] = 50;
    let r = |init: u32| packet(&format!("R{}", init), 60, BROADCAST_ID, 60, BROADCAST_ID, 0);
    assert_eq!(frozen.dynamic_rec(&r(50)).unwrap().1.len(), 0);
    assert_eq!(frozen.dynamic_rec(&r(49)).unwrap().1.len(), 0);
    let (_, out) = frozen.dynamic_rec(&r(51)).unwrap();
    assert_eq!(out, vec![packet("P50", 71, 60, 71, 60, 0)]);
}

#[test]
fn root_adoption_requires_smaller_root() {
    let mut d = dynamic_router(60, 1);
    d.tree.parent_ids[0] = 0;
    d.root_ids[0] = 50;
    d.children_ids.insert(0, 80);
    d.rec_info[0] = Some(RecInfo::new(0, &vec![80], 50, Some(55)));
    // equal root: ignored
    let (_, out) = d.dynamic_rec(&packet("P50", 70, 60, 70, 60, 0)).unwrap();
    assert_eq!(out.len(), 0);
    assert_eq!(d.root_ids, vec![50]);
    // larger root: refused
    assert_eq!(d.dynamic_rec(&packet("P51", 70, 60, 70, 60, 0)), Err(SimError::RootOrder));
    assert_eq!(d.root_ids, vec![50]);
    assert_eq!(d.tree.parent_ids, vec![0]);
    // smaller root: adopted
    let (_, out) = d.dynamic_rec(&packet("P2", 70, 60, 70, 60, 0)).unwrap();
    assert_eq!(d.root_ids, vec![2]);
    assert_eq!(d.tree.parent_ids, vec![70]);
    assert_eq!(
        out,
        vec![
            packet("pset", 60, 70, 60, 70, 0),
            RoutingPacket { packet_id: 1, ..packet("rset", 2, 80, 60, 80, 0) },
            RoutingPacket { packet_id: 2, ..packet("P2", 60, 55, 60, 55, 0) },
        ]
    );
    assert_eq!(d.children_ids.table[0], vec![80, 55]);
    // a node that is not frozen ignores offers
    let mut calm = dynamic_router(61, 1);
    assert_eq!(calm.dynamic_rec(&packet("P1", 70, 61, 70, 61, 0)).unwrap().1.len(), 0);
    assert_eq!(calm.root_ids, vec![1]);
}

#[test]
fn parent_set_and_root_set() {
    let mut d = dynamic_router(60, 1);
    d.children_ids.insert(0, 80);
    d.rec_info[0] = Some(RecInfo::new(0, &vec![], 50, None));
    let (is_rec, out) = d.dynamic_rec(&packet("pset", 90, 60, 90, 60, 0)).unwrap();
    assert!(is_rec && out.is_empty());
    assert_eq!(d.children_ids.table[0], vec![80, 90]);
    assert_eq!(d.rec_info[0].as_ref().unwrap().children, vec![90]);
    let (_, out) = d.dynamic_rec(&packet("rset", 3, 60, 59, 60, 0)).unwrap();
    assert_eq!(d.root_ids, vec![3]);
    assert_eq!(
        out,
        vec![
            packet("rset", 3, 80, 60, 80, 0),
            RoutingPacket { packet_id: 1, ..packet("rset", 3, 90, 60, 90, 0) },
        ]
    );
    let (is_rec, out) = d.dynamic_rec(&packet("hello", 3, 60, 59, 60, 0)).unwrap();
    assert!(!is_rec && out.is_empty());
    assert_eq!(d.dynamic_rec(&packet("Rx", 3, 60, 59, 60, 0)), Err(SimError::MalformedMessage));
    assert_eq!(d.dynamic_rec(&packet("rec", 3, 60, 59, 60, 4)), Err(SimError::BadChannel));
}

#[test]
fn probe_exhaustion_passes_search_then_fails_once() {
    let mut d = dynamic_router(60, 1);
    d.tree.send_packet_buffer.clear();
    let mut info = RecInfo::new(0, &vec![80], 50, Some(55));
    info.begin();
    d.rec_info[0] = Some(info);
    // three probes
    for n in 1..=3u8 {
        d.dynamic_rec_in_update(&vec![true], None);
        assert_eq!(d.rec_info[0].as_ref().unwrap().rec_cnt, n);
    }
    assert_eq!(d.tree.send_packet_buffer.len(), 3);
    assert_eq!(d.tree.send_packet_buffer[2].message, "R50");
    assert_eq!(d.tree.send_packet_buffer[2].dest_id, BROADCAST_ID);
    // exhausted: the search passes to the child
    d.dynamic_rec_in_update(&vec![true], None);
    let last = d.tree.send_packet_buffer.last().unwrap().clone();
    assert_eq!(last, RoutingPacket { packet_id: 3, ..packet("tf", 60, 80, 60, 80, 0) });
    let info = d.rec_info[0].as_ref().unwrap();
    assert!(!info.is_rec);
    assert_eq!(info.rec_cnt, 0);
    assert!(info.children.is_empty());
    // no probes while the node does not look
    d.dynamic_rec_in_update(&vec![true], None);
    assert_eq!(d.tree.send_packet_buffer.len(), 4);
    // the child reports failure: nobody left, so the failure goes up
    let (_, out) = d.dynamic_rec(&packet("fl", 80, 60, 80, 60, 0)).unwrap();
    assert_eq!(out, vec![RoutingPacket { packet_id: 4, ..packet("fl", 60, 55, 60, 55, 0) }]);

    // a leaf that looks and finds nothing reports failure once
    let mut leaf = dynamic_router(80, 1);
    leaf.tree.send_packet_buffer.clear();
    let mut info = RecInfo::new(0, &vec![], 50, Some(60));
    info.begin();
    info.rec_cnt = 3;
    leaf.rec_info[0] = Some(info);
    leaf.dynamic_rec_in_update(&vec![true], None);
    assert_eq!(leaf.tree.send_packet_buffer, vec![packet("fl", 80, 50, 80, 50, 0)]);
    for _ in 0..10 {
        leaf.dynamic_rec_in_update(&vec![true], None);
    }
    assert_eq!(leaf.tree.send_packet_buffer.len(), 1);
    assert!(!leaf.is_joined());
}

#[test]
fn new_children_are_noted() {
    let mut c = DynamicFunction::new_with(&NodeType::Coordinator, 1, 1);
    let out = c.process_received_packet(&packet("jreq", 77, 1, 77, 1, 0), 0).unwrap();
    assert_eq!(out[0].message, "jack");
    assert_eq!(c.children_ids.table[0], vec![77]);
    // a join request that came through another node brings no child
    let out = c.process_received_packet(&packet("jreq", 78, 1, 77, 1, 0), 0).unwrap();
    assert_eq!(out[0].next_id, 77);
    assert_eq!(c.children_ids.table[0], vec![77]);
    let mut r = dynamic_router(77, 1);
    r.tree.parent_ids[0] = 1;
    let out = r.process_received_packet(&packet("jreq", 78, 1, 78, 77, 0), 0).unwrap();
    assert_eq!(out, vec![packet("jreq", 78, 1, 77, 1, 0)]);
    assert_eq!(r.children_ids.table[0], vec![78]);
    assert_eq!(r.tree.next_node_id(78, 0), Some(78));
}

#[test]
fn children_table() {
    let mut t = ChildrenTable::new(2);
    assert!(t.is_empty(&0));
    assert!(!t.is_empty(&2));
    t.insert(0, 5);
    t.insert(0, 6);
    t.insert(0, 5);
    assert!(t.contains(0, 6));
    assert!(!t.contains(1, 6));
    assert_eq!(t.get(&0), Some(&vec![5, 6]));
    assert_eq!(t.get(&2), None);
    assert_eq!(t.pop(0), Some(5));
    assert_eq!(t.pop(1), None);
    t.insert(1, 6);
    t.forget(6);
    assert!(t.is_empty(&0) && t.is_empty(&1));
}

#[test]
fn message_without_route_is_refused() {
    let mut table = VidTable::new();
    add_to_vid_table(&mut table, 9, "far");
    let mut r = MultiTreeFunction::new_with(&NodeType::Router, 1, 77);
    let before = r.send_packet_buffer.len();
    let injection = recsimu::network::core_functions::packets::InjectionPacket {
        message: "hi".to_string(),
        dest_id: "far".to_string(),
        source_id: "me".to_string(),
    };
    assert_eq!(r.push_new_packet(&injection, &table), Err(SimError::NoRoute));
    assert_eq!(r.send_packet_buffer.len(), before);
    let nowhere = recsimu::network::core_functions::packets::InjectionPacket {
        dest_id: "nobody".to_string(),
        ..injection.clone()
    };
    assert_eq!(r.push_new_packet(&nowhere, &table), Err(SimError::UnknownNode));
    r.parent_ids[0] = 1;
    assert_eq!(r.push_new_packet(&injection, &table), Ok(()));
    let p = r.send_packet_buffer.last().unwrap();
    assert_eq!(p, &packet("hi", 77, 9, 77, 1, 0));
    // the packet number advances twice with each message of the user
    assert_eq!(r.packet_num_cnt, 2);
}

#[test]
fn router_ids_lie_above_the_coordinators() {
    let mut table = VidTable::new();
    for _ in 0..50 {
        let r = MultiTreeFunction::new(&NodeType::Router, 3, &mut table).unwrap();
        assert!(r.id > 3 && r.id < u32::MAX);
        assert_eq!(r.send_packet_buffer.len(), 1);
    }
    let c = MultiTreeFunction::new(&NodeType::Coordinator, 3, &mut table).unwrap();
    assert_eq!(c.id, 1);
    assert_eq!(c.network_joined, vec![true, false, false]);
    assert_eq!(c.parent_ids, vec![1, 0, 0]);
    assert!(c.send_packet_buffer.is_empty());
    let c = MultiTreeFunction::new(&NodeType::Coordinator, 3, &mut table).unwrap();
    assert_eq!(c.id, 2);
    assert_eq!(c.parent_ids, vec![0, 2, 0]);
}

#[test]
fn flit_is_forwarded_to_the_next_hop() {
    let mut table = VidTable::new();
    for (v, p) in [(1u32, "c"), (77, "me"), (80, "kid"), (90, "far")] {
        add_to_vid_table(&mut table, v, p);
    }
    let mut d = dynamic_router(77, 1);
    d.tree.parent_ids[0] = 1;
    let flit = recsimu::network::flit::Flit::Header(recsimu::network::flit::HeaderFlit {
        source_id: "far".to_string(),
        dest_id: "c".to_string(),
        next_id: "me".to_string(),
        prev_id: "kid".to_string(),
        packet_id: 3,
        flits_len: 2,
        data: vec![1],
        channel_id: 0,
    });
    let out = d.forward_flit(&flit, &table).unwrap();
    assert_eq!(out.get_prev_id(), Some("me".to_string()));
    assert_eq!(out.get_next_id(), Some("c".to_string()));
    assert_eq!(out.get_source_id(), Some("far".to_string()));
    // the way back is noted, and the last hop is a child now
    assert_eq!(d.tree.next_node_id(90, 0), Some(80));
    assert_eq!(d.children_ids.table[0], vec![80]);
    let bad = recsimu::network::flit::Flit::Empty;
    assert_eq!(d.forward_flit(&bad, &table), Err(SimError::EmptyFlit));
}
