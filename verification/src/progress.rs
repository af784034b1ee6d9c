//! The commands of the progress side-channel and their wire form: fixed-width
//! little-endian fields behind a two-byte operation code, text as a varint
//! length and UTF-8 bytes.
//!
//! A floating-point field travels as the eight bytes of its IEEE-754 binary64
//! form. A command holds such a field as the 64 bits of that form, so the
//! encoding is exact and free of floating-point arithmetic.

use crate::varint::{encode_7bit_string, varint_text};
use vstd::prelude::*;

verus! {

/// The operation code of "update progress".
pub const OP_SET_PROGRESS: u16 = 1;

/// The operation code of "remove".
pub const OP_REMOVE: u16 = 2;

/// The operation code of "set left-side label".
pub const OP_SET_LEFT_TEXT: u16 = 3;

/// The operation code of "set right-side label".
pub const OP_SET_RIGHT_TEXT: u16 = 4;

/// The operation code of "set numeric value".
pub const OP_SET_VALUE: u16 = 5;

/// One command for the progress display. Every command starts with the
/// identifier of the progress bar that it is about.
#[derive(Clone, Debug, PartialEq, Eq)]
pub enum ProgressCommand {
    /// Identifier, whether the bar is indeterminate, the bits of its maximum,
    /// its name.
    SetProgress(u64, bool, u64, Option<String>),
    RemoveProgress(u64),
    SetLeftText(u64, Option<String>),
    SetRightText(u64, Option<String>),
    /// Identifier and the bits of the value.
    SetProgressValue(u64, u64),
}

/// The `width` lowest bytes of `value`, the least significant first.
pub open spec fn le_bytes(value: nat, width: nat) -> Seq<u8>
    decreases width,
{
    if width == 0 {
        Seq::empty()
    } else {
        seq![(value % 256) as u8] + le_bytes(value / 256, (width - 1) as nat)
    }
}

/// The text of an optional string.
pub open spec fn text_view(text: Option<String>) -> Option<Seq<char>> {
    match text {
        Some(string) => Some(string@),
        None => None,
    }
}

/// The two-byte operation code and the eight-byte identifier that every
/// command starts with.
pub open spec fn header_bytes(operation: u16, id: u64) -> Seq<u8> {
    le_bytes(operation as nat, 2) + le_bytes(id as nat, 8)
}

/// The wire form of a command.
pub open spec fn command_bytes(command: ProgressCommand) -> Seq<u8> {
    match command {
        ProgressCommand::SetProgress(id, is_indeterminate, max_bits, name) => header_bytes(
            OP_SET_PROGRESS,
            id,
        ) + seq![if is_indeterminate { 1u8 } else { 0u8 }] + le_bytes(max_bits as nat, 8)
            + varint_text(text_view(name)),
        ProgressCommand::RemoveProgress(id) => header_bytes(OP_REMOVE, id),
        ProgressCommand::SetLeftText(id, text) => header_bytes(OP_SET_LEFT_TEXT, id) + varint_text(
            text_view(text),
        ),
        ProgressCommand::SetRightText(id, text) => header_bytes(OP_SET_RIGHT_TEXT, id)
            + varint_text(text_view(text)),
        ProgressCommand::SetProgressValue(id, value_bits) => header_bytes(OP_SET_VALUE, id)
            + le_bytes(value_bits as nat, 8),
    }
}

/// Appends the `width` lowest bytes of `value`, the least significant first.
pub fn push_le(out: &mut Vec<u8>, value: u64, width: usize)
    ensures
        final(out)@ == old(out)@ + le_bytes(value as nat, width as nat),
{
    let mut rest: u64 = value;
    let mut written: usize = 0;
    assert(out@ + le_bytes(rest as nat, (width - written) as nat) =~= old(out)@ + le_bytes(
        value as nat,
        width as nat,
    ));
    while written < width
        invariant
            written <= width,
            out@ + le_bytes(rest as nat, (width - written) as nat) == old(out)@ + le_bytes(
                value as nat,
                width as nat,
            ),
        decreases width - written,
    {
        let ghost before = out@;
        let low: u8 = (rest % 256) as u8;
        out.push(low);
        proof {
            let left = (width - written) as nat;
            assert(le_bytes(rest as nat, left) == seq![low] + le_bytes(
                rest as nat / 256,
                (left - 1) as nat,
            ));
            assert(out@ + le_bytes(rest as nat / 256, (left - 1) as nat) =~= before + le_bytes(
                rest as nat,
                left,
            ));
        }
        rest = rest / 256;
        written += 1;
    }
    assert(le_bytes(rest as nat, 0) =~= Seq::empty());
    assert(out@ =~= out@ + le_bytes(rest as nat, 0));
}

impl ProgressCommand {
    /// An "update progress" command. A bar of which nothing is said is
    /// determinate and has the maximum zero, whose bits are all zero.
    pub fn set_progress(
        id: u64,
        is_indeterminate: Option<bool>,
        max_bits: Option<u64>,
        name: Option<String>,
    ) -> (command: ProgressCommand)
        ensures
            command == ProgressCommand::SetProgress(
                id,
                match is_indeterminate {
                    Some(flag) => flag,
                    None => false,
                },
                match max_bits {
                    Some(bits) => bits,
                    None => 0,
                },
                name,
            ),
    {
        let flag = match is_indeterminate {
            Some(flag) => flag,
            None => false,
        };
        let bits: u64 = match max_bits {
            Some(bits) => bits,
            None => 0,
        };
        ProgressCommand::SetProgress(id, flag, bits, name)
    }

    /// The wire form of the command.
    pub fn encode(&self) -> (bytes: Vec<u8>)
        ensures
            bytes@ == command_bytes(*self),
    {
        let mut bytes: Vec<u8> = Vec::new();
        match self {
            ProgressCommand::SetProgress(id, is_indeterminate, max_bits, name) => {
                push_le(&mut bytes, OP_SET_PROGRESS as u64, 2);
                push_le(&mut bytes, *id, 8);
                bytes.push(if *is_indeterminate { 1 } else { 0 });
                push_le(&mut bytes, *max_bits, 8);
                let text = encode_text(name);
                bytes.extend_from_slice(text.as_slice());
            },
            ProgressCommand::RemoveProgress(id) => {
                push_le(&mut bytes, OP_REMOVE as u64, 2);
                push_le(&mut bytes, *id, 8);
            },
            ProgressCommand::SetLeftText(id, text) => {
                push_le(&mut bytes, OP_SET_LEFT_TEXT as u64, 2);
                push_le(&mut bytes, *id, 8);
                let text = encode_text(text);
                bytes.extend_from_slice(text.as_slice());
            },
            ProgressCommand::SetRightText(id, text) => {
                push_le(&mut bytes, OP_SET_RIGHT_TEXT as u64, 2);
                push_le(&mut bytes, *id, 8);
                let text = encode_text(text);
                bytes.extend_from_slice(text.as_slice());
            },
            ProgressCommand::SetProgressValue(id, value_bits) => {
                push_le(&mut bytes, OP_SET_VALUE as u64, 2);
                push_le(&mut bytes, *id, 8);
                push_le(&mut bytes, *value_bits, 8);
            },
        }
        assert(bytes@ =~= command_bytes(*self));
        bytes
    }
}

/// The wire form of an optional text.
fn encode_text(text: &Option<String>) -> (bytes: Vec<u8>)
    ensures
        bytes@ == varint_text(text_view(*text)),
{
    match text {
        Some(string) => encode_7bit_string(Some(string.as_str())),
        None => encode_7bit_string(None),
    }
}

/// Calls `rand::random`. Nothing is promised of the number: two calls may
/// differ.
#[verifier::external_body]
fn random_id() -> (id: u64) {
    rand::random()
}

/// The identifier of a new progress bar: the one asked for, or `drawn` where
/// none was asked for.
pub fn progress_id_or(requested: Option<u64>, drawn: u64) -> (id: u64)
    ensures
        id == match requested {
            Some(wanted) => wanted,
            None => drawn,
        },
{
    match requested {
        Some(wanted) => wanted,
        None => drawn,
    }
}

/// The identifier of a new progress bar: the one asked for, or a random one
/// where none was asked for.
pub fn progress_id(requested: Option<u64>) -> (id: u64)
    ensures
        requested matches Some(wanted) ==> id == wanted,
{
    match requested {
        Some(wanted) => wanted,
        None => progress_id_or(requested, random_id()),
    }
}

} // verus!
