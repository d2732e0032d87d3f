use recsimu::hardware::blocking::{Blocking, BLOCK_FLIT, RECEIVE_FLIT};
use recsimu::hardware::state::{NodeState, State, Waiting};
use recsimu::hardware::switching::Switching;
use recsimu::hardware::Hardware;
use recsimu::network::flit::{AckFlit, DataFlit, Flit, HeaderFlit, TailFlit};

fn header(prev: &str, next: &str, packet_id: u32, flits_len: u32) -> Flit {
    Flit::Header(HeaderFlit {
        source_id: "0".to_string(),
        dest_id: "1".to_string(),
        next_id: next.to_string(),
        prev_id: prev.to_string(),
        packet_id,
        flits_len,
        channel_id: 0,
        data: vec![0; 64],
    })
}

#[test]
fn test_check_received_flit() {
    let mut blocking = Blocking::new(Switching::StoreAndForward);

    let header_flit = Flit::Header(HeaderFlit {
        source_id: "0".to_string(),
        dest_id: "1".to_string(),
        next_id: "1".to_string(),
        prev_id: "0".to_string(),
        packet_id: 0,
        flits_len: 3,
        channel_id: 0,
        data: vec![0; 64],
    });

    let data_flit = Flit::Data(DataFlit {
        source_id: "0".to_string(),
        dest_id: "1".to_string(),
        next_id: "1".to_string(),
        prev_id: "0".to_string(),
        packet_id: 0,
        flit_num: 1,
        resend_num: 0,
        channel_id: 0,
        data: vec![0; 64],
    });

    let block_data_flit = Flit::Data(DataFlit {
        source_id: "5".to_string(),
        dest_id: "1".to_string(),
        next_id: "1".to_string(),
        prev_id: "0".to_string(),
        packet_id: 1,
        flit_num: 1,
        resend_num: 0,
        channel_id: 0,
        data: vec![0; 64],
    });

    let tail_flit = Flit::Tail(TailFlit {
        source_id: "0".to_string(),
        dest_id: "1".to_string(),
        next_id: "1".to_string(),
        prev_id: "0".to_string(),
        packet_id: 0,
        flit_num: 2,
        resend_num: 0,
        channel_id: 0,
        data: vec![0; 64],
    });

    let ack_flit = Flit::Ack(AckFlit {
        source_id: "0".to_string(),
        dest_id: "1".to_string(),
        packet_id: 0,
        flit_num: 4,
        channel_id: 0,
    });

    assert_eq!(blocking.check_received_flit(&header_flit), RECEIVE_FLIT);
    assert_eq!(blocking.check_received_flit(&block_data_flit), BLOCK_FLIT);
    assert_eq!(blocking.check_received_flit(&data_flit), RECEIVE_FLIT);
    assert_eq!(blocking.check_received_flit(&tail_flit), RECEIVE_FLIT);
    assert_eq!(blocking.check_received_flit(&ack_flit), RECEIVE_FLIT);
}

#[test]
fn blocking_latches_the_last_hop() {
    let mut blocking = Blocking::new(Switching::StoreAndForward);
    assert_eq!(blocking.check_received_flit(&header("a", "me", 7, 2)), RECEIVE_FLIT);
    assert!(blocking.is_receiving);
    assert_eq!(blocking.receiving_packet_prev_id, "a");
    assert_eq!(blocking.receiving_packet_id, 7);
    // another header, an acknowledgement and an empty flit are dropped meanwhile
    assert_eq!(blocking.check_received_flit(&header("b", "me", 8, 1)), BLOCK_FLIT);
    let ack = Flit::Ack(AckFlit {
        source_id: "x".to_string(),
        dest_id: "me".to_string(),
        packet_id: 0,
        flit_num: 0,
        channel_id: 0,
    });
    assert_eq!(blocking.check_received_flit(&ack), BLOCK_FLIT);
    assert_eq!(blocking.check_received_flit(&Flit::Empty), BLOCK_FLIT);
    // the tail from another neighbour is dropped, the right one ends the packet
    let tail = |prev: &str| {
        Flit::Tail(TailFlit {
            source_id: "0".to_string(),
            dest_id: "1".to_string(),
            next_id: "me".to_string(),
            prev_id: prev.to_string(),
            packet_id: 7,
            flit_num: 1,
            resend_num: 0,
            channel_id: 0,
            data: vec![],
        })
    };
    assert_eq!(blocking.check_received_flit(&tail("b")), BLOCK_FLIT);
    assert_eq!(blocking.check_received_flit(&tail("a")), RECEIVE_FLIT);
    assert!(!blocking.is_receiving);
}

#[test]
fn blocking_single_flit_header_does_not_latch() {
    let mut blocking = Blocking::new(Switching::StoreAndForward);
    assert_eq!(blocking.check_received_flit(&header("a", "me", 7, 1)), RECEIVE_FLIT);
    assert!(!blocking.is_receiving);
}

#[test]
fn cut_through_takes_every_flit() {
    let mut blocking = Blocking::new(Switching::CutThrough);
    assert!(!blocking.is_block_mode());
    assert_eq!(blocking.check_received_flit(&header("a", "me", 7, 3)), RECEIVE_FLIT);
    assert_eq!(blocking.check_received_flit(&header("b", "me", 8, 3)), RECEIVE_FLIT);
    assert_eq!(blocking.check_received_flit(&Flit::Empty), RECEIVE_FLIT);
    assert!(!blocking.is_receiving);
}

#[test]
fn test_send_flit() {
    let mut hardware = Hardware::new("source_id".to_string(), Switching::StoreAndForward);

    let flit = Flit::Data(DataFlit {
        source_id: "source_id".to_string(),
        dest_id: "dest_id".to_string(),
        next_id: "next_id".to_string(),
        prev_id: "prev_id".to_string(),
        resend_num: 0,
        packet_id: 0,
        flit_num: 0,
        channel_id: 0,
        data: vec![0; 8],
    });

    let sended_flit = hardware.send_flit(&flit).unwrap();
    assert_eq!(sended_flit, flit.clone());
    assert_eq!(hardware.retransmission_buffer, flit.clone());
}

#[test]
fn test_receive_flit() {
    let mut hardware = Hardware::new("dest_id".to_string(), Switching::StoreAndForward);

    let flit = Flit::Header(HeaderFlit {
        source_id: "source_id".to_string(),
        dest_id: "dest_id".to_string(),
        next_id: "dest_id".to_string(),
        prev_id: "prev_id".to_string(),
        packet_id: 0,
        flits_len: 1,
        channel_id: 0,
        data: vec![0; 8],
    });

    let received_flit = hardware.receive_flit(&flit).unwrap();
    assert_eq!(received_flit, Some(flit.clone()));
    assert_eq!(hardware.ack_buffer.is_empty(), false);
    assert_eq!(hardware.ack_buffer.is_ack(), true);
}

#[test]
fn test_calc_wait_cycles() {
    let mut hardware = Hardware::new("dest_id".to_string(), Switching::StoreAndForward);
    hardware.state.set_resend_times(0);
    assert_eq!(hardware.calc_wait_cycles(), 2);

    for _ in 0..100 {
        hardware.state.set_resend_times(1);
        let val = hardware.calc_wait_cycles();
        assert!(3 <= val && val <= 5);

        hardware.state.set_resend_times(2);
        let val = hardware.calc_wait_cycles();
        assert!(4 <= val && val <= 9);

        hardware.state.set_resend_times(3);
        let val = hardware.calc_wait_cycles();
        assert!(6 <= val && val <= 17);
    }
}

#[test]
fn ack_is_addressed_against_the_hop() {
    let mut hardware = Hardware::new("me".to_string(), Switching::StoreAndForward);
    let flit = Flit::Header(HeaderFlit {
        source_id: "src".to_string(),
        dest_id: "dst".to_string(),
        next_id: "me".to_string(),
        prev_id: "before".to_string(),
        packet_id: 9,
        flits_len: 1,
        channel_id: 3,
        data: vec![1, 2, 3],
    });
    hardware.receive_flit(&flit).unwrap();
    assert_eq!(
        hardware.ack_buffer,
        Flit::Ack(AckFlit {
            source_id: "me".to_string(),
            dest_id: "before".to_string(),
            packet_id: 9,
            flit_num: 0,
            channel_id: 3,
        })
    );
    let ack = hardware.send_ack().unwrap();
    assert!(ack.is_ack());
    assert!(hardware.ack_buffer.is_empty());
    assert!(hardware.send_ack().unwrap().is_empty());
}

#[test]
fn flit_for_another_node_is_dropped() {
    let mut hardware = Hardware::new("me".to_string(), Switching::StoreAndForward);
    let flit = header("a", "someone else", 1, 1);
    assert_eq!(hardware.receive_flit(&flit).unwrap(), None);
    assert!(hardware.ack_buffer.is_empty());
}

#[test]
fn broadcast_flit_is_taken_without_ack() {
    let mut hardware = Hardware::new("me".to_string(), Switching::StoreAndForward);
    let flit = header("a", "broadcast", 1, 1);
    assert_eq!(hardware.receive_flit(&flit).unwrap(), Some(flit.clone()));
    assert!(hardware.received_msg_is_broadcast);
    assert!(hardware.ack_buffer.is_empty());
}

#[test]
fn matching_ack_clears_the_pending_flit() {
    let mut hardware = Hardware::new("me".to_string(), Switching::StoreAndForward);
    let pending = Flit::Data(DataFlit {
        source_id: "me".to_string(),
        dest_id: "far".to_string(),
        next_id: "peer".to_string(),
        prev_id: "me".to_string(),
        resend_num: 0,
        packet_id: 4,
        flit_num: 2,
        channel_id: 0,
        data: vec![0; 8],
    });
    hardware.send_flit(&pending).unwrap();
    hardware.update_state_with(0);
    assert_eq!(*hardware.state.get(), State::Sending);
    hardware.update_state_with(0);
    assert_eq!(*hardware.state.get(), State::Waiting(Waiting { remaining_cycles: 2 }));
    assert_eq!(hardware.state.get_resend_times(), 1);
    hardware.set_state(&State::Receiving);
    let wrong = Flit::Ack(AckFlit {
        source_id: "peer".to_string(),
        dest_id: "me".to_string(),
        packet_id: 4,
        flit_num: 1,
        channel_id: 0,
    });
    assert_eq!(
        hardware.receive_flit(&wrong),
        Err(recsimu::error::SimError::AckMismatch)
    );
    assert_eq!(hardware.retransmission_buffer, pending);
    let right = Flit::Ack(AckFlit {
        source_id: "peer".to_string(),
        dest_id: "me".to_string(),
        packet_id: 4,
        flit_num: 2,
        channel_id: 0,
    });
    assert_eq!(hardware.receive_flit(&right).unwrap(), Some(right.clone()));
    assert!(hardware.retransmission_buffer.is_empty());
    assert_eq!(*hardware.state.get(), State::Idle);
    assert_eq!(hardware.state.get_resend_times(), 0);
}

#[test]
fn resend_times_rise_then_reset() {
    let mut hardware = Hardware::new("me".to_string(), Switching::StoreAndForward);
    let pending = header("me", "peer", 1, 1);
    hardware.send_flit(&pending).unwrap();
    let mut seen = vec![];
    let mut abandoned = false;
    for _ in 0..200 {
        let before = *hardware.state.get();
        hardware.update_state().unwrap();
        let after = *hardware.state.get();
        assert!(before == after || before.can_move_to(&after));
        assert!(!(before == State::Sending && after == State::Sending));
        assert!(!(before == State::Receiving && after == State::Sending));
        if before == State::Sending {
            seen.push(hardware.state.get_resend_times());
        }
        if hardware.retransmission_buffer.is_empty() {
            abandoned = true;
            break;
        }
    }
    assert!(abandoned);
    assert_eq!(seen, vec![1, 2, 3, 0]);
    hardware.update_state().unwrap();
    assert_eq!(*hardware.state.get(), State::Idle);
}

#[test]
fn backoff_formula_exact_values() {
    let mut hardware = Hardware::new("me".to_string(), Switching::StoreAndForward);
    hardware.send_flit(&header("me", "peer", 1, 1)).unwrap();
    hardware.update_state_with(0);
    hardware.state.set_resend_times(2);
    hardware.update_state_with(5);
    assert_eq!(*hardware.state.get(), State::Waiting(Waiting { remaining_cycles: 7 }));
    assert_eq!(hardware.state.get_resend_times(), 3);
    hardware.update_state_with(0);
    assert_eq!(*hardware.state.get(), State::Waiting(Waiting { remaining_cycles: 6 }));
}

#[test]
fn state_transitions() {
    let idle = State::Idle;
    assert!(idle.can_move_to(&State::Sending));
    assert!(idle.can_move_to(&State::Receiving));
    assert!(!idle.can_move_to(&State::ReplyAck));
    assert!(!State::Sending.can_move_to(&State::Sending));
    assert!(!State::Receiving.can_move_to(&State::Sending));
    assert!(State::Sending.can_move_to(&State::waiting_state(4)));
    assert!(State::waiting_state(4).can_move_to(&State::waiting_state(3)));
    assert!(!State::waiting_state(4).can_move_to(&State::waiting_state(2)));
    assert!(!State::waiting_state(4).can_move_to(&State::Idle));
    assert!(State::waiting_state(0).can_move_to(&State::Idle));
    assert!(State::waiting_state(0).can_move_to(&State::Sending));
    assert!(State::waiting_state(3).can_move_to(&State::Receiving));
    assert!(State::ReplyAck.can_move_to(&State::Idle));
    let mut s = NodeState::new();
    s.next(&State::Receiving);
    assert_eq!(*s.get(), State::Receiving);
    s.next(&State::ReplyAck);
    s.next(&State::Idle);
    assert_eq!(*s.get(), State::Idle);
}

#[test]
fn switching_words() {
    assert_eq!(Switching::parse("cut_through"), Ok(Switching::CutThrough));
    assert_eq!("store_and_forward".parse::<Switching>(), Ok(Switching::StoreAndForward));
    assert_eq!(
        Switching::parse("wormhole"),
        Err("wormhole is not a valid switching type".to_string())
    );
    assert_eq!(Switching::default(), Switching::StoreAndForward);
}

#[test]
fn acknowledgement_gets_no_acknowledgement() {
    let mut hardware = Hardware::new("me".to_string(), Switching::StoreAndForward);
    let ack = Flit::Ack(AckFlit {
        source_id: "x".to_string(),
        dest_id: "me".to_string(),
        packet_id: 0,
        flit_num: 0,
        channel_id: 0,
    });
    assert_eq!(hardware.ack_gen(&ack), Err(recsimu::error::SimError::UnexpectedAck));
    assert_eq!(hardware.ack_gen(&Flit::Empty), Err(recsimu::error::SimError::EmptyFlit));
    assert_eq!(hardware.ack_gen(&header("a", "other", 1, 1)), Ok(Flit::Empty));
    assert!(hardware.ack_buffer.is_empty());
}
