use rand::Rng;
use recsimu::error::SimError;
use recsimu::network::core_functions::packets::Packet;
use recsimu::network::flit::{flits_to_data, packet_to_flits, AckFlit, Flit, HeaderFlit};
use recsimu::utils::{div_ceil, parse_u32_from, u32_to_string};

fn packet_of(data: Vec<u8>) -> Packet {
    Packet {
        data,
        dest_id: "dest".to_string(),
        prev_id: "prev".to_string(),
        next_id: "next".to_string(),
        source_id: "source".to_string(),
        packet_id: 5,
        channel_id: 1,
    }
}

#[test]
fn test_data_to_flits() {
    let flits = packet_to_flits(&Packet {
        data: vec![0; 100],
        dest_id: "dest".to_string(),
        prev_id: "prev".to_string(),
        next_id: "next".to_string(),
        source_id: "source".to_string(),
        packet_id: 0,
        channel_id: 0,
    });
    assert_eq!(flits.len(), 2);
    assert!(flits[0].is_header());
    assert!(flits[1].is_tail());
}

#[test]
fn test_flits_to_data() {
    let flits = packet_to_flits(&Packet {
        data: vec![0; 100],
        dest_id: "dest".to_string(),
        prev_id: "prev".to_string(),
        next_id: "next".to_string(),
        source_id: "source".to_string(),
        packet_id: 0,
        channel_id: 0,
    });

    let data = flits_to_data(&flits);
    assert_eq!(data.len(), 100);
}

#[test]
fn round_trip_random_payloads() {
    let mut rng = rand::thread_rng();
    for _ in 0..256 {
        let len: usize = rng.gen_range(1..=2048);
        let data: Vec<u8> = (0..len).map(|_| rng.gen::<u8>()).collect();
        let p = packet_of(data.clone());
        let flits = packet_to_flits(&p);
        assert_eq!(flits.len(), (len + 63) / 64);
        assert_eq!(flits_to_data(&flits), data);
    }
}

#[test]
fn single_flit_packet_is_a_lone_header() {
    let flits = packet_to_flits(&packet_of(vec![7; 64]));
    assert_eq!(flits.len(), 1);
    assert!(flits[0].is_header());
    assert!(flits[0].is_last());
    assert_eq!(flits[0].get_flits_len(), Some(1));
    assert_eq!(flits[0].get_flit_num(), Some(0));
}

#[test]
fn three_flit_packet_layout() {
    let data: Vec<u8> = (0..130u32).map(|i| i as u8).collect();
    let flits = packet_to_flits(&packet_of(data.clone()));
    assert_eq!(flits.len(), 3);
    assert!(flits[0].is_header() && flits[1].is_data() && flits[2].is_tail());
    assert!(!flits[0].is_last() && !flits[1].is_last() && flits[2].is_last());
    assert_eq!(flits[0].get_flits_len(), Some(3));
    assert_eq!(flits[1].get_flit_num(), Some(1));
    assert_eq!(flits[2].get_flit_num(), Some(2));
    match &flits[2] {
        Flit::Tail(t) => assert_eq!(t.data, vec![128u8, 129u8]),
        _ => panic!("tail expected"),
    }
    for f in flits.iter() {
        assert_eq!(f.get_source_id(), Some("source".to_string()));
        assert_eq!(f.get_dest_id(), Some("dest".to_string()));
        assert_eq!(f.get_next_id(), Some("next".to_string()));
        assert_eq!(f.get_prev_id(), Some("prev".to_string()));
        assert_eq!(f.get_packet_id(), Some(5));
        assert_eq!(f.get_channel_id(), Some(1));
    }
}

#[test]
fn empty_payload_has_no_flits() {
    assert_eq!(packet_to_flits(&packet_of(vec![])).len(), 0);
    assert_eq!(packet_of(vec![]).get_flits_len(), 0);
}

#[test]
fn setters_on_each_variant() {
    let mut h = Flit::Header(HeaderFlit {
        source_id: "s".to_string(),
        dest_id: "d".to_string(),
        next_id: "n".to_string(),
        prev_id: "p".to_string(),
        packet_id: 0,
        flits_len: 1,
        data: vec![],
        channel_id: 0,
    });
    h.set_next_id("n2").unwrap();
    h.set_prev_id("p2").unwrap();
    assert_eq!(h.get_next_id(), Some("n2".to_string()));
    assert_eq!(h.get_prev_id(), Some("p2".to_string()));
    assert_eq!(h.get_source_id(), Some("s".to_string()));
    let mut a = Flit::Ack(AckFlit {
        source_id: "s".to_string(),
        dest_id: "d".to_string(),
        packet_id: 0,
        flit_num: 0,
        channel_id: 0,
    });
    a.set_next_id("n2").unwrap();
    a.set_prev_id("p2").unwrap();
    assert_eq!(a.get_dest_id(), Some("n2".to_string()));
    assert_eq!(a.get_source_id(), Some("p2".to_string()));
    let mut e = Flit::Empty;
    assert_eq!(e.set_next_id("x"), Err(SimError::EmptyFlit));
    assert_eq!(e.set_prev_id("x"), Err(SimError::EmptyFlit));
    assert!(e.is_empty());
    assert_eq!(e.get_source_id(), None);
    assert!(!e.is_broadcast());
}

#[test]
fn div_ceil_values() {
    assert_eq!(div_ceil(0, 64), 0);
    assert_eq!(div_ceil(1, 64), 1);
    assert_eq!(div_ceil(64, 64), 1);
    assert_eq!(div_ceil(65, 64), 2);
    assert_eq!(div_ceil(u32::MAX, 1), u32::MAX);
    assert_eq!(div_ceil(u32::MAX, 2), 0x8000_0000);
}

#[test]
fn decimal_round_trip() {
    for n in [0u32, 7, 10, 99, 100, 4294967295] {
        let s = u32_to_string(n);
        assert_eq!(s, n.to_string());
        assert_eq!(parse_u32_from(&s, 0), Some(n));
    }
    assert_eq!(parse_u32_from("R12", 1), Some(12));
    assert_eq!(parse_u32_from("R", 1), None);
    assert_eq!(parse_u32_from("R1x", 1), None);
    assert_eq!(parse_u32_from("4294967296", 0), None);
    assert_eq!(parse_u32_from("007", 0), Some(7));
}
