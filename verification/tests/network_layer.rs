use recsimu::hardware::switching::Switching;
use recsimu::log::{get_packet_log, Log};
use recsimu::network::core_functions::packets::InjectionPacket;
use recsimu::network::flit::Flit;
use recsimu::network::vid::{add_to_vid_table, get_vid, VidTable};
use recsimu::network::Network;
use recsimu::sim::node_type::NodeType;

#[test]
fn test_send_flit1() {
    let mut table = VidTable::new();
    let mut log = Log::new();
    add_to_vid_table(&mut table, u32::MAX, "broadcast");
    let mut network = Network::new(
        "test",
        1,
        &Switching::StoreAndForward,
        "default",
        &NodeType::Router,
        &mut table,
    )
    .unwrap();
    let packet = InjectionPacket {
        message: "hello world".to_string(),
        dest_id: "broadcast".to_string(),
        source_id: "test".to_string(),
    };
    network.send_new_packet(&packet, &table).unwrap();
    network.update(0, None, &table, &mut log).unwrap();

    // preq
    network.send_flit(&mut log).unwrap();

    network.update(1, None, &table, &mut log).unwrap();
    let flit = network.send_flit(&mut log).unwrap();

    assert_eq!(flit.get_source_id().unwrap(), "test".to_string());
    assert_eq!(flit.get_dest_id().unwrap(), "broadcast".to_string());
    assert_eq!(flit.get_packet_id().unwrap(), 0);
    assert_eq!(flit.get_next_id().unwrap(), "broadcast".to_string());
    assert_eq!(flit.get_prev_id().unwrap(), "test".to_string());
    assert_eq!(flit.get_flits_len().unwrap(), 1);
    assert_eq!(flit.get_channel_id().unwrap(), 0);
}

#[test]
fn test_send_flit2() {
    let mut table = VidTable::new();
    let mut log = Log::new();
    add_to_vid_table(&mut table, u32::MAX, "broadcast");
    let mut network = Network::new(
        "test",
        1,
        &Switching::CutThrough,
        "default",
        &NodeType::Router,
        &mut table,
    )
    .unwrap();
    let packet = InjectionPacket {
        message: "hello world".to_string(),
        dest_id: "broadcast".to_string(),
        source_id: "test".to_string(),
    };
    network.send_new_packet(&packet, &table).unwrap();
    network.update(0, None, &table, &mut log).unwrap();

    // preq
    network.send_flit(&mut log).unwrap();

    network.update(1, None, &table, &mut log).unwrap();
    let flit = network.send_flit(&mut log).unwrap();

    assert_eq!(flit.get_source_id().unwrap(), "test".to_string());
    assert_eq!(flit.get_dest_id().unwrap(), "broadcast".to_string());
    assert_eq!(flit.get_packet_id().unwrap(), 0);
    assert_eq!(flit.get_next_id().unwrap(), "broadcast".to_string());
    assert_eq!(flit.get_prev_id().unwrap(), "test".to_string());
    assert_eq!(flit.get_flits_len().unwrap(), 1);
    assert_eq!(flit.get_channel_id().unwrap(), 0);
}

#[test]
fn network_registers_its_node() {
    let mut table = VidTable::new();
    let network = Network::new(
        "c",
        2,
        &Switching::StoreAndForward,
        "multi_tree",
        &NodeType::Coordinator,
        &mut table,
    )
    .unwrap();
    assert_eq!(get_vid(&table, "c"), Some(1));
    assert_eq!(network.get_pid(), "c");
    assert!(!network.is_joined());
    assert_eq!(network.get_parent_pid(&table), vec![Some("c".to_string()), None]);
    assert!(Network::new(
        "x",
        1,
        &Switching::StoreAndForward,
        "no such routing",
        &NodeType::Router,
        &mut table
    )
    .is_err());
}

#[test]
fn emitted_packet_is_logged_and_header_sets_send_cycle() {
    let mut table = VidTable::new();
    let mut log = Log::new();
    add_to_vid_table(&mut table, u32::MAX, "broadcast");
    let mut network = Network::new(
        "r",
        1,
        &Switching::StoreAndForward,
        "default",
        &NodeType::Router,
        &mut table,
    )
    .unwrap();
    network.update_with(5, false, 0, &vec![], None, &vec![], &table, &mut log).unwrap();
    let key = format!("r_{}", u32::MAX);
    let entry = get_packet_log(&log, &key).unwrap();
    assert_eq!(entry.from_id, "r");
    assert_eq!(entry.dest_id, "broadcast");
    assert_eq!(entry.message, "preq");
    assert_eq!(entry.flits_len, 1);
    assert_eq!(entry.send_cycle, None);
    assert_eq!(entry.route_info, vec!["r"]);
    let flit = network.send_flit(&mut log).unwrap();
    assert!(matches!(flit, Flit::Header(_)));
    let entry = get_packet_log(&log, &key).unwrap();
    assert_eq!(entry.send_cycle, Some(5));
    assert_eq!(entry.route_info, vec!["r", "r"]);
    assert_eq!(entry.route_info[0], entry.from_id);
    assert!(!entry.is_delivered);
    assert!(network.send_flit(&mut log).is_none());
    assert_eq!(network.select_channel(), 0);
}

#[test]
fn cut_through_passes_flits_on_as_they_come() {
    let mut table = VidTable::new();
    let mut log = Log::new();
    add_to_vid_table(&mut table, u32::MAX, "broadcast");
    add_to_vid_table(&mut table, 1, "c");
    add_to_vid_table(&mut table, 90, "far");
    add_to_vid_table(&mut table, 80, "kid");
    let mut network = Network::new(
        "me",
        1,
        &Switching::CutThrough,
        "default",
        &NodeType::Router,
        &mut table,
    )
    .unwrap();
    match &mut network.core {
        recsimu::network::core_functions::CoreFunction::DefaultFunction(f) => {
            f.tree.parent_ids[0] = 1;
            f.tree.send_packet_buffer.clear();
        }
        _ => panic!("default core expected"),
    }
    let header = Flit::Header(recsimu::network::flit::HeaderFlit {
        source_id: "far".to_string(),
        dest_id: "c".to_string(),
        next_id: "me".to_string(),
        prev_id: "kid".to_string(),
        packet_id: 3,
        flits_len: 2,
        data: vec![1],
        channel_id: 0,
    });
    let tail = Flit::Tail(recsimu::network::flit::TailFlit {
        source_id: "far".to_string(),
        dest_id: "c".to_string(),
        next_id: "me".to_string(),
        prev_id: "kid".to_string(),
        packet_id: 3,
        flit_num: 1,
        resend_num: 0,
        data: vec![2],
        channel_id: 0,
    });
    network.receive_flit(&header, 0, &table, &mut log).unwrap();
    assert!(network.send_flit(&mut log).is_none());
    // a cycle passes one flit of each channel on
    network.update_with(1, false, 0, &vec![], None, &vec![], &table, &mut log).unwrap();
    let out = network.send_flit(&mut log).unwrap();
    assert!(out.is_header());
    assert_eq!(out.get_prev_id(), Some("me".to_string()));
    assert_eq!(out.get_next_id(), Some("c".to_string()));
    // the last flit of a packet empties the queue at once
    network.receive_flit(&tail, 0, &table, &mut log).unwrap();
    let out = network.send_flit(&mut log).unwrap();
    assert!(out.is_tail());
    assert_eq!(out.get_next_id(), Some("c".to_string()));
    // flits for other nodes and acknowledgements are no matter of this layer
    let stray = Flit::Header(recsimu::network::flit::HeaderFlit {
        source_id: "far".to_string(),
        dest_id: "c".to_string(),
        next_id: "kid".to_string(),
        prev_id: "far".to_string(),
        packet_id: 4,
        flits_len: 1,
        data: vec![1],
        channel_id: 0,
    });
    network.receive_flit(&stray, 0, &table, &mut log).unwrap();
    assert!(network.send_flit(&mut log).is_none());
    assert_eq!(
        network.receive_flit(&Flit::Empty, 0, &table, &mut log),
        Err(recsimu::error::SimError::EmptyFlit)
    );
}
