use ethercrab::command::Command;
use ethercrab::error::{Error, PduError};
use ethercrab::pdu_loop::{
    FramePoll, FrameState, PduFlags, PduResponseHandle, PduStorage, ReceiveAction,
    FIRST_PDU_EMPTY,
};

#[test]
fn chunked_send() {
    const MAX_PAYLOAD: usize = 32;

    let buf_len = PduStorage::element_size(MAX_PAYLOAD);

    let mut storage = PduStorage::new(1, buf_len);

    let mut created = storage.alloc_frame().expect("Claim created");

    let whatever_handle = storage.push_pdu(
        &mut created,
        Command::frmw(0x1000, 0x0918).into(),
        &0u64.to_le_bytes().to_vec(),
        None,
    );

    assert!(whatever_handle.is_ok());

    let big_frame = vec![0xaau8; MAX_PAYLOAD * 2];

    let (rest, _handle) = storage
        .push_pdu_slice_rest(&mut created, Command::fpwr(0x1000, 0x0918).into(), &big_frame)
        .expect("Should not fail")
        .unwrap();

    assert_eq!(rest, 12);
}

#[test]
fn too_long() {
    // The smallest slot holds no PDU payload at all.
    let mut storage = PduStorage::new(1, 28);

    let mut created = storage.alloc_frame().expect("Claim created");

    let handle = storage.push_pdu(&mut created, Command::fpwr(0x1000, 0x0918).into(), &vec![0xffu8; 9], None);

    assert_eq!(handle.unwrap_err(), PduError::TooLong);
}

#[test]
fn auto_more_follows() {
    const BUF_LEN: usize = 64;

    let mut storage = PduStorage::new(1, BUF_LEN);

    let mut created = storage.alloc_frame().expect("Claim created");

    let handle = storage.push_pdu(&mut created, Command::fpwr(0x1000, 0x0918).into(), &vec![], None);
    assert!(handle.is_ok());

    let handle = storage.push_pdu(&mut created, Command::fpwr(0x1001, 0x0918).into(), &vec![], None);
    assert!(handle.is_ok());

    let handle = storage.push_pdu(&mut created, Command::fpwr(0x1002, 0x0918).into(), &vec![], None);
    assert!(handle.is_ok());

    const FLAGS_OFFSET: usize = 6;

    let slot = created.storage_slot_index();
    let pdu_buf = storage.pdu_buf(slot);

    assert_eq!(pdu_buf[FLAGS_OFFSET..][..2], PduFlags::new(0, true).pack());

    assert_eq!(
        pdu_buf[10 + 2 + FLAGS_OFFSET..][..2],
        PduFlags::new(0, true).pack()
    );

    assert_eq!(
        pdu_buf[(10 + 2 + FLAGS_OFFSET) * 2..][..2],
        PduFlags::new(0, false).pack()
    );
}

#[test]
fn push_rest_too_long() {
    const BUF_LEN: usize = 32;

    let mut storage = PduStorage::new(1, BUF_LEN);

    let mut created = storage.alloc_frame().expect("Claim created");

    let data = vec![0xaau8; 128];

    let res = storage.push_pdu_slice_rest(&mut created, Command::Nop, &data);

    // A 32 byte frame contains all the headers with a little bit left over
    // for writing some data into.
    let expected_written = BUF_LEN - 12 - 2 - 14;

    // Just double checking
    assert_eq!(expected_written, 4);

    assert_eq!(
        res,
        Ok(Some((
            expected_written,
            PduResponseHandle {
                index_in_frame: 0,
                pdu_idx: 0,
                command_code: 0,
                // The size of this PDU with a 4 byte payload (plus 12 byte header)
                alloc_size: 4 + 12
            }
        )))
    );

    // Can't push anything else
    let res = storage.push_pdu_slice_rest(&mut created, Command::Nop, &data);

    assert_eq!(res, Ok(None));
}

#[test]
fn push_rest_after_dc_sync() {
    const BUF_LEN: usize = 64;

    let mut storage = PduStorage::new(1, BUF_LEN);

    let mut created = storage.alloc_frame().expect("Claim created");

    let dc_handle = storage
        .push_pdu(&mut created, Command::frmw(0x1000, 0x0910).into(), &0u64.to_le_bytes().to_vec(), None)
        .expect("DC handle");

    // 12 byte PDU header plus 8 byte payload
    assert_eq!(dc_handle.alloc_size, 20);

    let data = vec![0xaau8; 128];

    let remaining = BUF_LEN - 14 - 2 - dc_handle.alloc_size;

    // Just double checking
    assert_eq!(remaining, 28);

    let res = storage.push_pdu_slice_rest(&mut created, Command::Nop, &data);

    assert_eq!(
        res,
        Ok(Some((
            remaining - 12,
            PduResponseHandle {
                index_in_frame: 1,
                pdu_idx: 1,
                command_code: 0,
                alloc_size: remaining
            }
        )))
    );

    // Can't push anything else
    let res = storage.push_pdu_slice_rest(&mut created, Command::Nop, &data);

    assert_eq!(res, Ok(None));
}

#[test]
fn push_rest_empty() {
    const BUF_LEN: usize = 64;

    let mut storage = PduStorage::new(1, BUF_LEN);

    let mut created = storage.alloc_frame().expect("Claim created");

    assert_eq!(
        storage.push_pdu_slice_rest(&mut created, Command::frmw(0x1000, 0x0910).into(), &vec![]),
        Ok(None)
    );
}

#[test]
fn set_first_pdu_only_once() {
    let mut storage = PduStorage::new(1, 64);
    storage.pdu_idx = 0xab;

    let mut created = storage.alloc_frame().unwrap();

    storage.push_pdu(&mut created, Command::Nop, &vec![], None).unwrap();
    // The second PDU gets index 0xcd but must not displace the first.
    storage.pdu_idx = 0xcd;
    storage.push_pdu(&mut created, Command::Nop, &vec![], None).unwrap();

    assert_eq!(storage.frames[0].first_pdu, 0xab);
}

#[test]
fn find_empty_frame() {
    let storage = PduStorage::new(1, 28);

    assert_eq!(storage.frames[0].first_pdu, FIRST_PDU_EMPTY);
    assert!(storage.frame_index_by_first_pdu_index(0).is_none());
}

#[test]
fn find_frame_zero() {
    let mut storage = PduStorage::new(1, 28);

    let mut created = storage.alloc_frame().unwrap();
    storage.push_pdu(&mut created, Command::Nop, &vec![], None).unwrap();

    assert_eq!(storage.frame_index_by_first_pdu_index(0), Some(0));
}

#[test]
fn find_frame_1() {
    let mut storage = PduStorage::new(2, 28);

    let mut frame_a = storage.alloc_frame().unwrap();
    storage.pdu_idx = 123;
    storage.push_pdu(&mut frame_a, Command::Nop, &vec![], None).unwrap();

    let mut frame_b = storage.alloc_frame().unwrap();
    storage.pdu_idx = 0xff;
    storage.push_pdu(&mut frame_b, Command::Nop, &vec![], None).unwrap();

    assert_eq!(storage.frame_index_by_first_pdu_index(0), None);
    assert_eq!(storage.frame_index_by_first_pdu_index(123), Some(0));
    assert_eq!(storage.frame_index_by_first_pdu_index(0xff), Some(1));
}

#[test]
fn payload_offset() {
    const N: usize = 32;
    // Minus ethernet header and EtherCAT header
    const ETHERCAT_PAYLOAD: usize = N - 14 - 2;

    let mut storage = PduStorage::new(1, N);

    // Fill the whole buffer with a canary value; the PDU region accessor
    // must hand back exactly the bytes after the two headers.
    storage.frames[0].ethernet_frame = vec![0xabu8; N];

    let raw = storage.pdu_buf(0);

    assert_eq!(raw, vec![0xabu8; ETHERCAT_PAYLOAD]);
}

#[test]
fn zeroed_data() {
    let mut storage = PduStorage::new(1, PduStorage::element_size(8));

    let mut frame = storage.alloc_frame().expect("Allocate first frame");

    storage
        .push_pdu(&mut frame, Command::bwr(0x1000).into(), &vec![0xaa, 0xbb, 0xcc, 0xdd], None)
        .unwrap();

    // Drop the frame future to reset its state for reuse
    let fut = storage.mark_sendable(frame, usize::MAX);
    fut.release(&mut storage);

    let mut frame = storage.alloc_frame().expect("Allocate second frame");

    const LEN: usize = 8;

    storage.push_pdu(&mut frame, Command::Nop, &vec![], Some(LEN as u16)).unwrap();

    let pdu_start = 14 + 2 + 10;

    let slot = frame.storage_slot_index();
    let _fut = storage.mark_sendable(frame, usize::MAX);

    // 10 byte PDU header, 8 byte payload, 2 byte WKC
    assert_eq!(
        // Skip all headers
        &storage.frame_bytes(slot)[pdu_start..],
        // PDU payload plus working counter
        &[0u8; { LEN + 2 }]
    );
}

#[test]
fn no_spare_frames() {
    const NUM_FRAMES: usize = 16;

    let mut storage = PduStorage::new(NUM_FRAMES, PduStorage::element_size(128));

    for _ in 0..NUM_FRAMES {
        // Claimed frames stay claimed until explicitly released.
        let _ = storage.alloc_frame().expect("should have free frames");
    }

    assert!(
        storage.alloc_frame().is_err(),
        "there should be no frame slots available"
    );
}

#[test]
fn reset() {
    const NUM_FRAMES: usize = 16;

    let mut storage = PduStorage::new(NUM_FRAMES, PduStorage::element_size(128));

    for _ in 0..NUM_FRAMES {
        let _ = storage.alloc_frame().expect("should have frame slots");
    }

    // No more frames
    assert!(storage.alloc_frame().is_err());

    storage.reset();

    // We should be able to allocate every frame again
    for _ in 0..NUM_FRAMES {
        let _ = storage.alloc_frame().expect("should have frame slots");
    }

    assert!(storage.alloc_frame().is_err());
}

#[test]
fn alloc_exhausted_error_kind() {
    let mut storage = PduStorage::new(1, 28);

    let _held = storage.alloc_frame().unwrap();

    match storage.alloc_frame() {
        Err(e) => assert_eq!(e, Error::Pdu(PduError::SwapState)),
        Ok(_) => panic!("allocation should fail with every slot claimed"),
    }
}

#[test]
fn alloc_then_drop() {
    let mut storage = PduStorage::new(1, 28);

    let frame = storage.alloc_frame().expect("first allocation");
    let slot = frame.storage_slot_index();

    assert_eq!(storage.frames[slot as usize].status, FrameState::Created);

    // Drop it without pushing anything.
    frame.release(&mut storage);

    let frame = storage.alloc_frame().expect("slot is reusable");
    assert_eq!(frame.storage_slot_index(), slot);
    frame.release(&mut storage);
}

#[test]
fn push_and_mark_sendable() {
    // A slot with a 64-byte buffer: two zero-length PDUs fit easily.
    let mut storage = PduStorage::new(1, 64);

    let mut frame = storage.alloc_frame().unwrap();

    storage.push_pdu(&mut frame, Command::fpwr(0x1000, 0x0918).into(), &vec![], None).unwrap();
    storage.push_pdu(&mut frame, Command::fpwr(0x1001, 0x0918).into(), &vec![], None).unwrap();

    let slot = frame.storage_slot_index();
    let _fut = storage.mark_sendable(frame, 0);

    let pdu_buf = storage.pdu_buf(slot);

    // First PDU chains to the second; the second is the last.
    let first = PduFlags::unpack_from_slice(&pdu_buf, 6).unwrap();
    let second = PduFlags::unpack_from_slice(&pdu_buf, 12 + 6).unwrap();

    assert!(first.more_follows);
    assert!(!second.more_follows);

    // Aggregate payload length is two empty PDUs: the EtherCAT frame header
    // reads 2 * 12 with the DLPDU protocol nibble.
    let fb = storage.frame_bytes(slot);
    assert_eq!(fb[14], 2 * 12);
    assert_eq!(fb[15], 0x10);
}

#[test]
fn timeout_with_retry() {
    let mut storage = PduStorage::new(1, 28);

    let mut frame = storage.alloc_frame().unwrap();
    storage.push_pdu(&mut frame, Command::brd(0x0000).into(), &vec![], None).unwrap();

    let mut fut = storage.mark_sendable(frame, 2);

    // Never respond; each poll sees an expired timer.
    assert_eq!(fut.poll(&mut storage, true), FramePoll::Pending);
    assert_eq!(fut.poll(&mut storage, true), FramePoll::Pending);
    assert_eq!(fut.poll(&mut storage, true), FramePoll::Ready(Err(Error::Timeout)));

    // The slot was given back.
    assert_eq!(storage.frames[0].status, FrameState::Idle);
}

fn response_frame_for(storage: &PduStorage, slot: u8) -> Vec<u8> {
    // Echo the sent frame back with a different source MAC, as a sub-device
    // chain would.
    let mut response = storage.frame_bytes(slot);
    response[6] = 0x12;
    response
}

#[test]
fn rx_round_trip() {
    let mut storage = PduStorage::new(1, PduStorage::element_size(8));

    let mut frame = storage.alloc_frame().unwrap();
    storage.push_pdu(&mut frame, Command::fprd(0x1000, 0x0130).into(), &vec![0, 0], None).unwrap();

    let slot = frame.storage_slot_index();
    let mut fut = storage.mark_sendable(frame, 0);

    // Nothing received yet: the future stays pending.
    assert_eq!(fut.poll(&mut storage, false), FramePoll::Pending);

    // Drive the transmit path.
    let claimed = storage.next_sendable_frame().expect("one sendable frame");
    assert_eq!(claimed, slot);
    let len = storage.sendable_len(claimed);
    let response = response_frame_for(&storage, claimed);
    storage.complete_send(claimed, Ok(len)).expect("full send");
    assert_eq!(storage.frames[0].status, FrameState::Sent);

    // Feed the response back in.
    assert_eq!(storage.receive_frame(&response), Ok(ReceiveAction::Processed));
    assert_eq!(storage.frames[0].status, FrameState::RxDone);

    // The future now completes and hands the slot back.
    match fut.poll(&mut storage, false) {
        FramePoll::Ready(Ok(received)) => {
            received.release(&mut storage);
        }
        other => panic!("unexpected poll result: {:?}", other),
    }
    assert_eq!(storage.frames[0].status, FrameState::Idle);
}

#[test]
fn rx_own_echo_ignored() {
    let mut storage = PduStorage::new(1, PduStorage::element_size(8));

    let mut frame = storage.alloc_frame().unwrap();
    storage.push_pdu(&mut frame, Command::brd(0x0000).into(), &vec![], None).unwrap();
    let slot = frame.storage_slot_index();
    let _fut = storage.mark_sendable(frame, 0);

    // A frame whose source MAC is the main device's own is a self-echo on a
    // switched network and must be ignored.
    let own_echo = storage.frame_bytes(slot);

    assert_eq!(storage.receive_frame(&own_echo), Ok(ReceiveAction::Ignored));
}

#[test]
fn rx_cas_failure_drops_frame() {
    let mut storage = PduStorage::new(1, PduStorage::element_size(8));

    let mut frame = storage.alloc_frame().unwrap();
    storage.push_pdu(&mut frame, Command::brd(0x0000).into(), &vec![], None).unwrap();
    let slot = frame.storage_slot_index();
    let response = {
        let mut fut = storage.mark_sendable(frame, 0);
        let claimed = storage.next_sendable_frame().unwrap();
        let len = storage.sendable_len(claimed);
        let response = response_frame_for(&storage, claimed);
        storage.complete_send(claimed, Ok(len)).unwrap();

        // The response arrives only after the timeout released the slot.
        assert_eq!(fut.poll(&mut storage, true), FramePoll::Ready(Err(Error::Timeout)));
        response
    };

    assert_eq!(storage.frames[slot as usize].status, FrameState::Idle);

    // The late response matches no slot in `Sent`: silently dropped.
    assert_eq!(storage.receive_frame(&response), Ok(ReceiveAction::Ignored));
    assert_eq!(storage.frames[slot as usize].status, FrameState::Idle);
}

#[test]
fn rx_error_cases() {
    let mut storage = PduStorage::new(1, PduStorage::element_size(8));

    // Too short for an Ethernet header.
    assert_eq!(storage.receive_frame(&vec![0u8; 10]), Err(Error::ReceiveFrame));

    // Not the EtherCAT ethertype.
    let mut not_ecat = vec![0u8; 60];
    not_ecat[12] = 0x08;
    not_ecat[13] = 0x00;
    assert_eq!(storage.receive_frame(&not_ecat), Ok(ReceiveAction::Ignored));

    // EtherCAT, but an empty payload.
    let mut empty = vec![0u8; 60];
    empty[12] = 0x88;
    empty[13] = 0xa4;
    empty[14] = 0x00;
    empty[15] = 0x10;
    assert_eq!(storage.receive_frame(&empty), Ok(ReceiveAction::Ignored));

    // A bad protocol nibble is a wire error.
    let mut bad_proto = vec![0u8; 60];
    bad_proto[12] = 0x88;
    bad_proto[13] = 0xa4;
    bad_proto[14] = 0x0c;
    bad_proto[15] = 0x20;
    assert_eq!(
        storage.receive_frame(&bad_proto),
        Err(Error::Wire(ethercrab::WireError::InvalidValue))
    );

    // A valid frame that matches no pending slot is a decode error.
    let mut unmatched = vec![0u8; 60];
    unmatched[12] = 0x88;
    unmatched[13] = 0xa4;
    unmatched[14] = 0x0c;
    unmatched[15] = 0x10;
    unmatched[17] = 42;
    assert_eq!(
        storage.receive_frame(&unmatched),
        Err(Error::Pdu(PduError::Decode))
    );
}

#[test]
fn partial_send_reports_and_requeues() {
    let mut storage = PduStorage::new(1, 28);

    let mut frame = storage.alloc_frame().unwrap();
    storage.push_pdu(&mut frame, Command::brd(0x0000).into(), &vec![], None).unwrap();
    let _fut = storage.mark_sendable(frame, 0);

    let claimed = storage.next_sendable_frame().unwrap();
    let len = storage.sendable_len(claimed);

    assert_eq!(
        storage.complete_send(claimed, Ok(5)),
        Err(Error::PartialSend { len, sent: 5 })
    );

    // The frame went back to the transmit queue.
    assert_eq!(storage.frames[0].status, FrameState::Sendable);
}
