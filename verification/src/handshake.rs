//! The handshake that opens the progress side-channel, as a state machine.
//!
//! The client sends a 16-byte capability identifier on the control channel.
//! The server answers with a four-byte status and, if the status is zero,
//! with two eight-byte handles: one to read from and one to write to. All
//! numbers are little-endian.
//!
//! A handle is kept as the number that its eight bytes stand for; the caller
//! gives it the type that the operating system asks for.
//!
//! The machine decides; the caller moves the bytes. It performs the action
//! that a step returns and reports what happened as the next event. An I/O
//! failure is the caller's to report: the machine is then dropped.

use vstd::prelude::*;
use vstd::slice::slice_to_vec;

verus! {

/// The length of a capability identifier.
pub const CAPABILITY_LEN: usize = 16;

/// Why a handshake ends without a channel.
#[derive(Clone, Copy, Debug, PartialEq, Eq, Structural)]
pub enum HandshakeError {
    /// The capability identifier does not have sixteen bytes.
    InvalidInput,
    /// The server answered with a status other than zero.
    Refused,
    /// An event came that the state does not wait for.
    OutOfOrder,
}

/// What has happened on the control channel.
#[derive(Clone, Copy, Debug, PartialEq, Eq)]
pub enum HandshakeEvent {
    /// The bytes of the last `Send` have been written.
    Sent,
    /// The four bytes of a status have been read.
    Status([u8; 4]),
    /// The eight bytes of a handle have been read.
    Handle([u8; 8]),
}

/// What the caller has to do next.
#[derive(Debug, PartialEq, Eq)]
pub enum HandshakeAction {
    /// Write these bytes, then report `Sent`.
    Send(Vec<u8>),
    /// Read four bytes, then report them as `Status`.
    ReadStatus,
    /// Read eight bytes, then report them as `Handle`.
    ReadHandle,
    /// The channel is open: these are the handles to read from and to write
    /// to.
    Connect { read_handle: u64, write_handle: u64 },
    /// The handshake has failed.
    Fail(HandshakeError),
}

/// How far a handshake has come.
#[derive(Clone, Copy, Debug, PartialEq, Eq, Structural)]
pub enum HandshakeState {
    /// The capability identifier is being written.
    Sending,
    AwaitingStatus,
    AwaitingReadHandle,
    /// The handle to read from is known; the handle to write to is awaited.
    AwaitingWriteHandle(u64),
    /// The handshake is over, with or without a channel.
    Finished,
}

/// The number that the bytes stand for, the least significant byte first.
pub open spec fn le_value(bytes: Seq<u8>) -> nat
    decreases bytes.len(),
{
    if bytes.len() == 0 {
        0
    } else {
        bytes[0] as nat + 256 * le_value(bytes.drop_first())
    }
}

/// The step of a fresh handshake: an identifier of the right length is sent
/// as it is, any other ends the handshake before anything is written.
pub open spec fn first_step(uuid: Seq<u8>) -> (HandshakeState, Option<HandshakeError>) {
    if uuid.len() == CAPABILITY_LEN {
        (HandshakeState::Sending, None)
    } else {
        (HandshakeState::Finished, Some(HandshakeError::InvalidInput))
    }
}

/// What a step answers to an event.
pub enum Answer {
    ReadStatus,
    ReadHandle,
    Connect { read_handle: nat, write_handle: nat },
    Fail(HandshakeError),
}

/// The transition of the handshake: the state after `event` and what the
/// caller has to do then.
pub open spec fn transition(state: HandshakeState, event: HandshakeEvent) -> (
    HandshakeState,
    Answer,
) {
    match (state, event) {
        (HandshakeState::Sending, HandshakeEvent::Sent) => (
            HandshakeState::AwaitingStatus,
            Answer::ReadStatus,
        ),
        (HandshakeState::AwaitingStatus, HandshakeEvent::Status(status)) => if le_value(status@)
            == 0 {
            (HandshakeState::AwaitingReadHandle, Answer::ReadHandle)
        } else {
            (HandshakeState::Finished, Answer::Fail(HandshakeError::Refused))
        },
        (HandshakeState::AwaitingReadHandle, HandshakeEvent::Handle(handle)) => (
            HandshakeState::AwaitingWriteHandle(le_value(handle@) as u64),
            Answer::ReadHandle,
        ),
        (HandshakeState::AwaitingWriteHandle(read_handle), HandshakeEvent::Handle(handle)) => (
            HandshakeState::Finished,
            Answer::Connect { read_handle: read_handle as nat, write_handle: le_value(handle@) },
        ),
        _ => (HandshakeState::Finished, Answer::Fail(HandshakeError::OutOfOrder)),
    }
}

/// What an action tells the caller, without the bytes of a `Send`.
pub open spec fn answer_of(action: HandshakeAction) -> Option<Answer> {
    match action {
        HandshakeAction::Send(_) => None,
        HandshakeAction::ReadStatus => Some(Answer::ReadStatus),
        HandshakeAction::ReadHandle => Some(Answer::ReadHandle),
        HandshakeAction::Connect { read_handle, write_handle } => Some(
            Answer::Connect { read_handle: read_handle as nat, write_handle: write_handle as nat },
        ),
        HandshakeAction::Fail(error) => Some(Answer::Fail(error)),
    }
}

/// Eight bytes stand for a number below 2^64, four bytes for one below 2^32.
pub proof fn lemma_le_value_bound(bytes: Seq<u8>)
    ensures
        bytes.len() == 4 ==> le_value(bytes) < 0x1_0000_0000,
        bytes.len() == 8 ==> le_value(bytes) < 0x1_0000_0000_0000_0000,
        bytes.len() == 4 ==> le_value(bytes) == bytes[0] + 0x100 * bytes[1] + 0x1_0000 * bytes[2]
            + 0x100_0000 * bytes[3],
        bytes.len() == 8 ==> le_value(bytes) == bytes[0] + 0x100 * bytes[1] + 0x1_0000 * bytes[2]
            + 0x100_0000 * bytes[3] + 0x1_0000_0000 * bytes[4] + 0x100_0000_0000 * bytes[5]
            + 0x1_0000_0000_0000 * bytes[6] + 0x100_0000_0000_0000 * bytes[7],
{
    reveal_with_fuel(le_value, 9);
    if bytes.len() == 4 {
        let a = bytes.drop_first();
        let b = a.drop_first();
        let c = b.drop_first();
        assert(c.drop_first().len() == 0);
        assert(a[0] == bytes[1] && b[0] == bytes[2] && c[0] == bytes[3]);
    }
    if bytes.len() == 8 {
        let a = bytes.drop_first();
        let b = a.drop_first();
        let c = b.drop_first();
        let d = c.drop_first();
        let e = d.drop_first();
        let f = e.drop_first();
        let g = f.drop_first();
        assert(g.drop_first().len() == 0);
        assert(a[0] == bytes[1] && b[0] == bytes[2] && c[0] == bytes[3] && d[0] == bytes[4]);
        assert(e[0] == bytes[5] && f[0] == bytes[6] && g[0] == bytes[7]);
    }
}

/// The number that four little-endian bytes stand for.
pub fn status_value(bytes: &[u8; 4]) -> (value: u32)
    ensures
        value == le_value(bytes@),
{
    proof {
        lemma_le_value_bound(bytes@);
    }
    let b0: u32 = bytes[0] as u32;
    let b1: u32 = bytes[1] as u32;
    let b2: u32 = bytes[2] as u32;
    let b3: u32 = bytes[3] as u32;
    b0 + 0x100 * b1 + 0x1_0000 * b2 + 0x100_0000 * b3
}

/// The number that eight little-endian bytes stand for.
pub fn handle_value(bytes: &[u8; 8]) -> (value: u64)
    ensures
        value == le_value(bytes@),
{
    proof {
        lemma_le_value_bound(bytes@);
    }
    let b0: u64 = bytes[0] as u64;
    let b1: u64 = bytes[1] as u64;
    let b2: u64 = bytes[2] as u64;
    let b3: u64 = bytes[3] as u64;
    let b4: u64 = bytes[4] as u64;
    let b5: u64 = bytes[5] as u64;
    let b6: u64 = bytes[6] as u64;
    let b7: u64 = bytes[7] as u64;
    b0 + 0x100 * b1 + 0x1_0000 * b2 + 0x100_0000 * b3 + 0x1_0000_0000 * b4 + 0x100_0000_0000 * b5
        + 0x1_0000_0000_0000 * b6 + 0x100_0000_0000_0000 * b7
}

impl HandshakeState {
    /// Starts a handshake with a capability identifier.
    pub fn begin(uuid: &[u8]) -> (step: (HandshakeState, HandshakeAction))
        ensures
            step.0 == first_step(uuid@).0,
            match first_step(uuid@).1 {
                Some(error) => step.1 == HandshakeAction::Fail(error),
                None => step.1 matches HandshakeAction::Send(bytes) && bytes@ == uuid@,
            },
    {
        if uuid.len() != CAPABILITY_LEN {
            (HandshakeState::Finished, HandshakeAction::Fail(HandshakeError::InvalidInput))
        } else {
            (HandshakeState::Sending, HandshakeAction::Send(slice_to_vec(uuid)))
        }
    }

    /// The state after `event` and what the caller has to do then.
    pub fn advance(self, event: HandshakeEvent) -> (step: (HandshakeState, HandshakeAction))
        ensures
            step.0 == transition(self, event).0,
            answer_of(step.1) == Some(transition(self, event).1),
    {
        match self {
            HandshakeState::Sending => match event {
                HandshakeEvent::Sent => (
                    HandshakeState::AwaitingStatus,
                    HandshakeAction::ReadStatus,
                ),
                _ => out_of_order(),
            },
            HandshakeState::AwaitingStatus => match event {
                HandshakeEvent::Status(status) => {
                    if status_value(&status) != 0 {
                        (HandshakeState::Finished, HandshakeAction::Fail(HandshakeError::Refused))
                    } else {
                        (HandshakeState::AwaitingReadHandle, HandshakeAction::ReadHandle)
                    }
                },
                _ => out_of_order(),
            },
            HandshakeState::AwaitingReadHandle => match event {
                HandshakeEvent::Handle(handle) => (
                    HandshakeState::AwaitingWriteHandle(handle_value(&handle)),
                    HandshakeAction::ReadHandle,
                ),
                _ => out_of_order(),
            },
            HandshakeState::AwaitingWriteHandle(read_handle) => match event {
                HandshakeEvent::Handle(handle) => (
                    HandshakeState::Finished,
                    HandshakeAction::Connect { read_handle, write_handle: handle_value(&handle) },
                ),
                _ => out_of_order(),
            },
            HandshakeState::Finished => out_of_order(),
        }
    }
}

/// The end of a handshake on an event that the state does not wait for.
fn out_of_order() -> (step: (HandshakeState, HandshakeAction))
    ensures
        step.0 == HandshakeState::Finished,
        step.1 == HandshakeAction::Fail(HandshakeError::OutOfOrder),
{
    (HandshakeState::Finished, HandshakeAction::Fail(HandshakeError::OutOfOrder))
}

/// The name of the control channel for a channel identifier.
pub fn pipe_name(pipe_id: &str) -> (name: String)
    ensures
        name@ == "\\\\.\\pipe\\"@ + pipe_id@,
{
    let mut name = String::new();
    name.append("\\\\.\\pipe\\");
    name.append(pipe_id);
    assert(name@ =~= "\\\\.\\pipe\\"@ + pipe_id@);
    name
}

} // verus!
