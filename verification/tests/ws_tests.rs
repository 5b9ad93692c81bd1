use message_io::ws::{
    accepted_remote_state, connect_handshake_done, handshake_step, io_error_to_read_status,
    plan_send, receive_step, write_step, HandshakeOutcome, HandshakeStep, IoErrorClass,
    ReadStatus, ReceiveStep, RemoteState, SendPlan, SendStatus, WriteOutcome, WriteStep, WsInput,
    MAX_PAYLOAD_LEN,
};

#[test]
fn io_error_classification() {
    assert_eq!(io_error_to_read_status(&IoErrorClass::WouldBlock), ReadStatus::WaitNextEvent);
    assert_eq!(io_error_to_read_status(&IoErrorClass::ConnectionReset), ReadStatus::Disconnected);
    assert_eq!(io_error_to_read_status(&IoErrorClass::Interrupted), ReadStatus::Disconnected);
    assert_eq!(io_error_to_read_status(&IoErrorClass::Other), ReadStatus::Disconnected);
}

#[test]
fn pre_handshake_sends_queue_and_flush_in_order() {
    let mut state = RemoteState::new_handshake();
    assert_eq!(plan_send(&mut state, &vec![1u8, 2]), SendPlan::Enqueue);
    assert_eq!(plan_send(&mut state, &vec![3u8]), SendPlan::Enqueue);
    assert!(matches!(handshake_step(&mut state, &HandshakeOutcome::Interrupted),
        HandshakeStep::Wait));
    assert_eq!(plan_send(&mut state, &vec![4u8, 5, 6]), SendPlan::Enqueue);
    match handshake_step(&mut state, &HandshakeOutcome::Finished) {
        HandshakeStep::Flush(pending) => {
            assert_eq!(pending, vec![vec![1u8, 2], vec![3u8], vec![4u8, 5, 6]]);
        }
        _ => panic!("handshake completion must flush the queue"),
    }
    assert_eq!(plan_send(&mut state, &vec![7u8]), SendPlan::Write);
}

#[test]
fn handshake_failure_disconnects() {
    let mut state = RemoteState::new_handshake();
    assert!(matches!(handshake_step(&mut state, &HandshakeOutcome::Failed),
        HandshakeStep::Disconnect));
}

#[test]
fn oversize_send_is_rejected_and_connection_stays() {
    let mut state = RemoteState::Established;
    let oversize = vec![0u8; MAX_PAYLOAD_LEN + 1];
    assert_eq!(plan_send(&mut state, &oversize), SendPlan::Reject);
    assert_eq!(
        write_step(&WriteOutcome::TooLarge, oversize.len()),
        WriteStep::Done(SendStatus::MaxPacketSizeExceeded(MAX_PAYLOAD_LEN + 1, MAX_PAYLOAD_LEN))
    );
    // a subsequent valid send proceeds: the resource stayed alive
    assert_eq!(plan_send(&mut state, &vec![1u8, 2, 3]), SendPlan::Write);
}

#[test]
fn write_outcomes_classified() {
    assert_eq!(write_step(&WriteOutcome::Accepted, 3), WriteStep::Done(SendStatus::Sent));
    assert_eq!(write_step(&WriteOutcome::WouldBlock, 3), WriteStep::RetryFlush);
    assert_eq!(
        write_step(&WriteOutcome::Failed, 3),
        WriteStep::Done(SendStatus::ResourceNotFound)
    );
}

#[test]
fn receive_steps() {
    match receive_step(WsInput::Binary(vec![9u8, 8])) {
        ReceiveStep::Deliver(d) => assert_eq!(d, vec![9u8, 8]),
        _ => panic!("binary messages are delivered"),
    }
    assert!(matches!(receive_step(WsInput::Close),
        ReceiveStep::Stop(ReadStatus::Disconnected)));
    assert!(matches!(receive_step(WsInput::Control), ReceiveStep::Skip));
    assert!(matches!(
        receive_step(WsInput::TransportError(IoErrorClass::WouldBlock)),
        ReceiveStep::Stop(ReadStatus::WaitNextEvent)
    ));
    assert!(matches!(receive_step(WsInput::ProtocolError),
        ReceiveStep::Stop(ReadStatus::Disconnected)));
}

#[test]
fn accepted_remote_states() {
    assert!(matches!(
        accepted_remote_state(&HandshakeOutcome::Finished),
        Some(RemoteState::Established)
    ));
    match accepted_remote_state(&HandshakeOutcome::Interrupted) {
        Some(RemoteState::Handshake { pending }) => assert!(pending.is_empty()),
        _ => panic!("an interrupted handshake keeps a pending remote"),
    }
    assert!(accepted_remote_state(&HandshakeOutcome::Failed).is_none());
}

#[test]
fn connect_retries_until_done() {
    assert!(!connect_handshake_done(&HandshakeOutcome::Interrupted));
    assert!(connect_handshake_done(&HandshakeOutcome::Finished));
}
