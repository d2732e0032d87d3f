use recsimu::error::SimError;
use recsimu::log::{
    clear_log, collect_stats, get_all_log, get_packet_log, packet_is_received,
    post_collision_info, post_new_packet_log, update_packet_log, FlitLog, FlitLogInfo, Log,
    NewCollisionInfo, NewPacketLogInfo, UpdatePacketLogInfo,
};

#[test]
fn test_post_new_packet_log() {
    let mut log = Log::new();
    let packet_info = NewPacketLogInfo {
        packet_id: "packet_id".to_string(),
        from_id: "from_id".to_string(),
        dest_id: "dest_id".to_string(),
        flits_len: 2,
        message: "test".to_string(),
        channel_id: 0,
    };
    let packet_log = post_new_packet_log(&mut log, &packet_info).unwrap();
    assert_eq!(packet_log.packet_id, "packet_id");
    assert_eq!(packet_log.from_id, "from_id");
    assert_eq!(packet_log.dest_id, "dest_id");
    assert_eq!(packet_log.flits_len, 2);
    assert_eq!(packet_log.last_receive_cycle, None);
    assert_eq!(packet_log.route_info, vec!["from_id"]);
    assert_eq!(packet_log.flit_logs, Vec::<FlitLog>::new());
    assert_eq!(packet_log.is_delivered, false);
}

#[test]
fn test_update_packet_log() {
    let mut log = Log::new();
    let packet_info = NewPacketLogInfo {
        packet_id: "packet_id".to_string(),
        from_id: "from_id".to_string(),
        dest_id: "dest_id".to_string(),
        flits_len: 3,
        message: "test".to_string(),
        channel_id: 0,
    };
    let packet_log = post_new_packet_log(&mut log, &packet_info).unwrap();

    let update_packet_log_info = UpdatePacketLogInfo {
        send_cycle: None,
        last_receive_cycle: Some(1),
        route_info: Some("route_info".to_string()),
        is_delivered: Some(true),
        flit_log: None,
    };
    let packet_log =
        update_packet_log(&mut log, &packet_log.packet_id, &update_packet_log_info).unwrap();
    assert_eq!(packet_log.packet_id, "packet_id");
    assert_eq!(packet_log.from_id, "from_id");
    assert_eq!(packet_log.dest_id, "dest_id");
    assert_eq!(packet_log.flits_len, 3);
    assert_eq!(packet_log.last_receive_cycle, Some(1));
    assert_eq!(packet_log.route_info, vec!["from_id", "route_info"]);
    assert_eq!(packet_log.flit_logs, Vec::<FlitLog>::new());
    assert_eq!(packet_log.is_delivered, true);
}

#[test]
fn test_get_packet_log() {
    let mut log = Log::new();
    let packet_info = NewPacketLogInfo {
        packet_id: "packet_id".to_string(),
        from_id: "from_id".to_string(),
        dest_id: "dest_id".to_string(),
        flits_len: 1,
        message: "test".to_string(),
        channel_id: 0,
    };
    let packet_log = post_new_packet_log(&mut log, &packet_info).unwrap();

    let get_packet_log = get_packet_log(&log, &packet_log.packet_id).unwrap();
    assert_eq!(get_packet_log.packet_id, "packet_id");
    assert_eq!(get_packet_log.from_id, "from_id");
    assert_eq!(get_packet_log.dest_id, "dest_id");
    assert_eq!(get_packet_log.flits_len, 1);
    assert_eq!(get_packet_log.last_receive_cycle, None);
    assert_eq!(get_packet_log.route_info, vec!["from_id"]);
    assert_eq!(get_packet_log.flit_logs, Vec::<FlitLog>::new());
    assert_eq!(get_packet_log.is_delivered, false);
}

fn entry(id: &str, flits_len: u32) -> NewPacketLogInfo {
    NewPacketLogInfo {
        packet_id: id.to_string(),
        from_id: "a".to_string(),
        dest_id: "b".to_string(),
        flits_len,
        message: "m".to_string(),
        channel_id: 0,
    }
}

fn update(send: Option<u32>, received: Option<u32>, delivered: Option<bool>) -> UpdatePacketLogInfo {
    UpdatePacketLogInfo {
        send_cycle: send,
        last_receive_cycle: received,
        route_info: None,
        is_delivered: delivered,
        flit_log: None,
    }
}

#[test]
fn update_of_unknown_packet_is_refused() {
    let mut log = Log::new();
    assert_eq!(
        update_packet_log(&mut log, "nobody_1", &update(Some(1), None, None)),
        Err(SimError::UnknownPacket)
    );
    assert_eq!(get_packet_log(&log, "nobody_1"), None);
    assert!(!packet_is_received(&log, "nobody_1"));
}

#[test]
fn flit_log_is_appended() {
    let mut log = Log::new();
    post_new_packet_log(&mut log, &entry("a_1", 1)).unwrap();
    let u = UpdatePacketLogInfo {
        send_cycle: Some(3),
        last_receive_cycle: None,
        route_info: None,
        is_delivered: None,
        flit_log: Some(FlitLogInfo {
            received_cycle: 4,
            from_id: "a".to_string(),
            dest_id: "b".to_string(),
            flit_num: 0,
        }),
    };
    let e = update_packet_log(&mut log, "a_1", &u).unwrap();
    assert_eq!(e.send_cycle, Some(3));
    assert_eq!(
        e.flit_logs,
        vec![FlitLog { received_cycle: 4, from_id: "a".to_string(), dest_id: "b".to_string() }]
    );
    assert_eq!(e.route_info[0], e.from_id);
    assert!(!packet_is_received(&log, "a_1"));
}

#[test]
fn clear_log_is_idempotent_and_resets_the_whole_log() {
    let mut log = Log::new();
    post_new_packet_log(&mut log, &entry("a_1", 1)).unwrap();
    post_collision_info(
        &mut log,
        &NewCollisionInfo {
            cycle: 10,
            from_ids: vec!["r1".to_string(), "r2".to_string()],
            dest_id: "c".to_string(),
        },
    );
    assert_eq!(log.collision_info.len(), 1);
    clear_log(&mut log);
    assert_eq!(get_all_log(&log).len(), 0);
    assert_eq!(get_packet_log(&log, "a_1"), None);
    assert_eq!(log.collision_info.len(), 0);
    assert_eq!(collect_stats(&log, 0, 100).unwrap().collision_count, 0);
    clear_log(&mut log);
    assert_eq!(get_all_log(&log).len(), 0);
    assert_eq!(log.collision_info.len(), 0);
}

#[test]
fn stats_count_packets_in_range() {
    let mut log = Log::new();
    post_new_packet_log(&mut log, &entry("a_1", 2)).unwrap();
    post_new_packet_log(&mut log, &entry("a_2", 3)).unwrap();
    post_new_packet_log(&mut log, &entry("a_3", 5)).unwrap();
    post_new_packet_log(&mut log, &entry("a_4", 7)).unwrap();
    update_packet_log(&mut log, "a_1", &update(Some(10), Some(16), Some(true))).unwrap();
    update_packet_log(&mut log, "a_2", &update(Some(12), None, Some(false))).unwrap();
    update_packet_log(&mut log, "a_3", &update(Some(30), Some(31), Some(true))).unwrap();
    let stats = collect_stats(&log, 0, 20).unwrap();
    assert_eq!(stats.latencies, vec![(6, 2)]);
    assert_eq!(stats.undelivered_packets, 1);
    assert_eq!(stats.total_packets, 2);
    assert_eq!(stats.total_flits, 5);
    assert_eq!(stats.collision_count, 0);
    let all = get_all_log(&log);
    assert_eq!(all.len(), 4);
    assert_eq!(all[0].packet_id, "a_1");
}

#[test]
fn stats_refuse_arrival_before_sending() {
    let mut log = Log::new();
    post_new_packet_log(&mut log, &entry("a_1", 2)).unwrap();
    update_packet_log(&mut log, "a_1", &update(Some(10), Some(9), Some(true))).unwrap();
    assert!(matches!(collect_stats(&log, 0, 20), Err(SimError::InconsistentLog)));
    assert!(collect_stats(&log, 11, 20).is_ok());
}

#[test]
fn errors_describe_themselves() {
    assert_eq!(SimError::EmptyFlit.describe(), "flit is empty");
    assert_eq!(SimError::UnknownPacket.describe(), "specified packet not found");
    assert_eq!(SimError::NoRoute.describe(), "parent_id is not set");
    assert_eq!(SimError::UnknownRouting.describe(), "invalid routing function kind");
}
