use recsimu::network::flit::{DataFlit, Flit, HeaderFlit, TailFlit};
use recsimu::network::flit_buffer::{FlitBuffer, ReceivedFlitsBuffer};
use recsimu::network::vid::{
    add_to_vid_table, clear_vid_table, get_pid, get_vid, remove_from_vid_table, update_vid_table,
    VidTable,
};

#[test]
fn test_flit_buffer() {
    let mut table = VidTable::new();
    add_to_vid_table(&mut table, u32::MAX, "broadcast");
    let mut flit_buffer = FlitBuffer::new();

    let flit0 = &Flit::Header(HeaderFlit {
        channel_id: 0,
        packet_id: 0,
        dest_id: "".to_string(),
        source_id: "".to_string(),
        prev_id: "".to_string(),
        next_id: "".to_string(),
        data: vec![],
        flits_len: 0,
    });
    flit_buffer.push(flit0);

    let flit1 = &Flit::Header(HeaderFlit {
        channel_id: 0,
        packet_id: 0,
        dest_id: "".to_string(),
        source_id: "".to_string(),
        prev_id: "".to_string(),
        next_id: "".to_string(),
        data: vec![],
        flits_len: 0,
    });
    flit_buffer.push(flit1);

    let flit2 = &Flit::Header(HeaderFlit {
        channel_id: 0,
        packet_id: 0,
        dest_id: "".to_string(),
        source_id: "".to_string(),
        prev_id: "".to_string(),
        next_id: "".to_string(),
        data: vec![],
        flits_len: 0,
    });

    flit_buffer.push(flit2);

    assert_eq!(flit_buffer.pop(), Some(flit0.clone()));
    assert_eq!(flit_buffer.pop(), Some(flit1.clone()));
    assert_eq!(flit_buffer.pop(), Some(flit2.clone()));
    assert_eq!(flit_buffer.pop(), None);
}

#[test]
fn test_remove_duplicate_and_sort() {
    let mut table = VidTable::new();
    add_to_vid_table(&mut table, u32::MAX, "broadcast");
    let mut flit_buffer = FlitBuffer::new();

    let header_flit = &Flit::Header(HeaderFlit {
        channel_id: 0,
        packet_id: 0,
        dest_id: "".to_string(),
        source_id: "".to_string(),
        prev_id: "".to_string(),
        next_id: "".to_string(),
        data: vec![],
        flits_len: 0,
    });
    flit_buffer.push(header_flit);
    flit_buffer.push(header_flit);
    flit_buffer.remove_duplicate_and_sort();

    assert_eq!(flit_buffer.pop(), Some(header_flit.clone()));
    assert_eq!(flit_buffer.pop(), None);

    for i in [4, 5, 2, 9, 7, 1, 8, 3, 6, 1, 0, 4] {
        let data_flit = &Flit::Data(DataFlit {
            channel_id: 0,
            packet_id: 0,
            dest_id: "".to_string(),
            source_id: "".to_string(),
            prev_id: "".to_string(),
            next_id: "".to_string(),
            flit_num: i,
            resend_num: 0,
            data: vec![],
        });
        flit_buffer.push(data_flit);
    }

    flit_buffer.remove_duplicate_and_sort();
    assert_eq!(flit_buffer.flit_buffer.len(), 10);
    let mut prev_flit_num = 0;
    while let Some(flit) = flit_buffer.pop() {
        assert!(flit.get_flit_num().unwrap() >= prev_flit_num);
        prev_flit_num = flit.get_flit_num().unwrap();
    }
}

fn data_flit(flit_num: u32, tag: u8) -> Flit {
    Flit::Data(DataFlit {
        channel_id: 0,
        packet_id: 1,
        dest_id: "d".to_string(),
        source_id: "s".to_string(),
        prev_id: "p".to_string(),
        next_id: "n".to_string(),
        flit_num,
        resend_num: 0,
        data: vec![tag],
    })
}

#[test]
fn sort_is_stable_and_puts_empty_first() {
    let mut b = FlitBuffer::new();
    b.push(&data_flit(2, 10));
    b.push(&data_flit(1, 11));
    b.push(&data_flit(2, 12));
    b.push(&Flit::Empty);
    b.push(&data_flit(1, 13));
    b.push(&data_flit(2, 10));
    b.remove_duplicate_and_sort();
    let expected = vec![
        Flit::Empty,
        data_flit(1, 11),
        data_flit(1, 13),
        data_flit(2, 10),
        data_flit(2, 12),
    ];
    assert_eq!(b.flit_buffer, expected);
    assert!(!b.is_empty());
    b.clear();
    assert!(b.is_empty());
}

fn header(flits_len: u32, data: Vec<u8>) -> Flit {
    Flit::Header(HeaderFlit {
        channel_id: 2,
        packet_id: 1,
        dest_id: "d".to_string(),
        source_id: "s".to_string(),
        prev_id: "p".to_string(),
        next_id: "n".to_string(),
        data,
        flits_len,
    })
}

fn tail(flit_num: u32, data: Vec<u8>) -> Flit {
    Flit::Tail(TailFlit {
        channel_id: 2,
        packet_id: 1,
        dest_id: "d".to_string(),
        source_id: "s".to_string(),
        prev_id: "p2".to_string(),
        next_id: "n2".to_string(),
        flit_num,
        resend_num: 0,
        data,
    })
}

#[test]
fn pop_packet_reassembles_out_of_order_flits() {
    let mut r = ReceivedFlitsBuffer::new();
    r.push_flit(&tail(2, vec![5, 6]));
    r.push_flit(&data_flit(1, 3));
    r.push_flit(&header(3, vec![1, 2]));
    r.push_flit(&data_flit(1, 3));
    assert!(r.pop_packet("s", 2).is_none());
    assert!(r.pop_packet("other", 1).is_none());
    let p = r.pop_packet("s", 1).unwrap();
    assert_eq!(p.data, vec![1, 2, 3, 5, 6]);
    assert_eq!(p.source_id, "s");
    assert_eq!(p.dest_id, "d");
    assert_eq!(p.next_id, "n2");
    assert_eq!(p.prev_id, "p2");
    assert_eq!(p.packet_id, 1);
    assert_eq!(p.channel_id, 2);
    // the bucket is empty afterwards
    assert!(r.pop_packet("s", 1).is_none());
}

#[test]
fn pop_packet_needs_header_and_tail() {
    let mut r = ReceivedFlitsBuffer::new();
    r.push_flit(&data_flit(1, 3));
    r.push_flit(&tail(2, vec![5]));
    assert!(r.pop_packet("s", 1).is_none());
    let mut r = ReceivedFlitsBuffer::new();
    r.push_flit(&header(3, vec![1]));
    r.push_flit(&data_flit(1, 3));
    assert!(r.pop_packet("s", 1).is_none());
    let mut r = ReceivedFlitsBuffer::new();
    r.push_flit(&header(1, vec![1]));
    let p = r.pop_packet("s", 1).unwrap();
    assert_eq!(p.data, vec![1]);
    let mut r = ReceivedFlitsBuffer::new();
    r.push_flit(&header(2, vec![1]));
    assert!(r.pop_packet("s", 1).is_none());
}

#[test]
fn vid_table_operations() {
    let mut t = VidTable::new();
    assert_eq!(get_vid(&t, "a"), None);
    add_to_vid_table(&mut t, 7, "a");
    add_to_vid_table(&mut t, 8, "b");
    assert_eq!(get_vid(&t, "a"), Some(7));
    assert_eq!(get_pid(&t, 8), Some("b".to_string()));
    update_vid_table(&mut t, 7, "a");
    assert_eq!(get_vid(&t, "a"), Some(7));
    remove_from_vid_table(&mut t, 7, "a");
    assert_eq!(get_vid(&t, "a"), None);
    assert_eq!(get_pid(&t, 7), None);
    assert_eq!(get_vid(&t, "b"), Some(8));
    clear_vid_table(&mut t);
    assert_eq!(get_vid(&t, "b"), None);
    clear_vid_table(&mut t);
    assert_eq!(get_vid(&t, "b"), None);
    assert_eq!(get_pid(&t, 8), None);
}

#[test]
fn vid_table_stays_a_bijection() {
    let mut t = VidTable::new();
    add_to_vid_table(&mut t, 7, "a");
    add_to_vid_table(&mut t, 8, "b");
    // the id 7 gets another name: its earlier name leaves the table
    add_to_vid_table(&mut t, 7, "c");
    assert_eq!(get_pid(&t, 7), Some("c".to_string()));
    assert_eq!(get_vid(&t, "c"), Some(7));
    assert_eq!(get_vid(&t, "a"), None);
    assert_eq!(get_vid(&t, "b"), Some(8));
    // the name "b" gets another id: its earlier id leaves the table
    add_to_vid_table(&mut t, 9, "b");
    assert_eq!(get_vid(&t, "b"), Some(9));
    assert_eq!(get_pid(&t, 9), Some("b".to_string()));
    assert_eq!(get_pid(&t, 8), None);
    // both at once
    add_to_vid_table(&mut t, 7, "b");
    assert_eq!(get_vid(&t, "b"), Some(7));
    assert_eq!(get_pid(&t, 7), Some("b".to_string()));
    assert_eq!(get_vid(&t, "c"), None);
    assert_eq!(get_pid(&t, 9), None);
    // tying a pair again changes nothing
    update_vid_table(&mut t, 7, "b");
    assert_eq!(get_vid(&t, "b"), Some(7));
    assert_eq!(get_pid(&t, 7), Some("b".to_string()));
    // removing takes each of the two out with what it was tied to
    add_to_vid_table(&mut t, 1, "x");
    add_to_vid_table(&mut t, 2, "y");
    remove_from_vid_table(&mut t, 1, "y");
    assert_eq!(get_vid(&t, "x"), None);
    assert_eq!(get_pid(&t, 2), None);
    assert_eq!(get_pid(&t, 1), None);
    assert_eq!(get_vid(&t, "y"), None);
    assert_eq!(get_vid(&t, "b"), Some(7));
}

#[test]
fn coordinator_ids_cycle() {
    let mut t = VidTable::new();
    assert_eq!(t.take_coordinator_id(2), 1);
    assert_eq!(t.take_coordinator_id(2), 2);
    assert_eq!(t.take_coordinator_id(2), 1);
}
