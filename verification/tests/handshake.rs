use kernel_cache::handshake::{
    handle_value, pipe_name, status_value, HandshakeAction, HandshakeError, HandshakeEvent,
    HandshakeState,
};

const PROGRESS_CAPABILITY: [u8; 16] = [
    0xff, 0x70, 0xc1, 0x2b, 0x1f, 0x44, 0x20, 0x46, 0xba, 0xab, 0x44, 0xa4, 0x70, 0xe3, 0xca, 0xb6,
];

#[test]
fn pipe_name_is_below_the_pipe_namespace() {
    assert_eq!(pipe_name("site-42"), "\\\\.\\pipe\\site-42");
    assert_eq!(pipe_name(""), "\\\\.\\pipe\\");
}

#[test]
fn status_is_little_endian() {
    assert_eq!(status_value(&[0, 0, 0, 0]), 0);
    assert_eq!(status_value(&[1, 0, 0, 0]), 1);
    assert_eq!(status_value(&[0x78, 0x56, 0x34, 0x12]), 0x1234_5678);
    assert_eq!(status_value(&[0xff; 4]), u32::MAX);
}

#[test]
fn handle_is_little_endian() {
    assert_eq!(handle_value(&[0; 8]), 0);
    assert_eq!(handle_value(&[0x88, 0x77, 0x66, 0x55, 0x44, 0x33, 0x22, 0x11]), 0x1122_3344_5566_7788);
    assert_eq!(handle_value(&[0xff; 8]), u64::MAX);
    for value in [3u64, 0x1_0000, 0xdead_beef_0000, 1 << 63] {
        assert_eq!(handle_value(&value.to_le_bytes()), value);
    }
}

#[test]
fn identifier_of_sixteen_bytes_is_sent() {
    let (state, action) = HandshakeState::begin(&PROGRESS_CAPABILITY);
    assert_eq!(state, HandshakeState::Sending);
    assert_eq!(action, HandshakeAction::Send(PROGRESS_CAPABILITY.to_vec()));
}

#[test]
fn identifier_of_another_length_is_invalid_input() {
    for length in [0usize, 1, 15, 17, 32] {
        let (state, action) = HandshakeState::begin(&vec![0xab; length]);
        assert_eq!(state, HandshakeState::Finished);
        assert_eq!(action, HandshakeAction::Fail(HandshakeError::InvalidInput));
    }
}

#[test]
fn status_zero_opens_the_channel_with_both_handles() {
    let (state, _) = HandshakeState::begin(&PROGRESS_CAPABILITY);
    let (state, action) = state.advance(HandshakeEvent::Sent);
    assert_eq!((state, &action), (HandshakeState::AwaitingStatus, &HandshakeAction::ReadStatus));
    let (state, action) = state.advance(HandshakeEvent::Status([0; 4]));
    assert_eq!(
        (state, &action),
        (HandshakeState::AwaitingReadHandle, &HandshakeAction::ReadHandle)
    );
    let (state, action) = state.advance(HandshakeEvent::Handle(0x1234u64.to_le_bytes()));
    assert_eq!(
        (state, &action),
        (HandshakeState::AwaitingWriteHandle(0x1234), &HandshakeAction::ReadHandle)
    );
    let (state, action) = state.advance(HandshakeEvent::Handle(0x5678u64.to_le_bytes()));
    assert_eq!(state, HandshakeState::Finished);
    assert_eq!(action, HandshakeAction::Connect { read_handle: 0x1234, write_handle: 0x5678 });
}

#[test]
fn any_other_status_refuses() {
    for status in [[1u8, 0, 0, 0], [0, 0, 0, 1], [0xff; 4]] {
        let (state, action) = HandshakeState::AwaitingStatus.advance(HandshakeEvent::Status(status));
        assert_eq!(state, HandshakeState::Finished);
        assert_eq!(action, HandshakeAction::Fail(HandshakeError::Refused));
    }
}

#[test]
fn an_event_that_is_not_awaited_ends_the_handshake() {
    let out_of_order = HandshakeAction::Fail(HandshakeError::OutOfOrder);
    let cases = [
        (HandshakeState::Sending, HandshakeEvent::Status([0; 4])),
        (HandshakeState::Sending, HandshakeEvent::Handle([0; 8])),
        (HandshakeState::AwaitingStatus, HandshakeEvent::Sent),
        (HandshakeState::AwaitingStatus, HandshakeEvent::Handle([0; 8])),
        (HandshakeState::AwaitingReadHandle, HandshakeEvent::Status([0; 4])),
        (HandshakeState::AwaitingWriteHandle(1), HandshakeEvent::Sent),
        (HandshakeState::Finished, HandshakeEvent::Sent),
        (HandshakeState::Finished, HandshakeEvent::Handle([0; 8])),
    ];
    for (state, event) in cases {
        let (next, action) = state.advance(event);
        assert_eq!(next, HandshakeState::Finished);
        assert_eq!(action, out_of_order);
    }
}
