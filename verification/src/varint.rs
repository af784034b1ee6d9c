//! Variable-length integers, seven bits per byte, least significant group
//! first, and text prefixed by its length in that form.

use vstd::prelude::*;

verus! {

/// The encoding of `n`: every byte but the last carries seven bits of the
/// number and has its top bit set; the last byte is below `0x80`.
pub open spec fn varint(n: nat) -> Seq<u8>
    decreases n,
{
    if n < 0x80 {
        seq![n as u8]
    } else {
        seq![(n % 0x80 + 0x80) as u8] + varint(n / 0x80)
    }
}

/// The encoding of an optional text: the byte length of its UTF-8 form,
/// reduced to 32 bits, as a varint, then the bytes. Absent text is a single
/// zero byte, the same as empty text.
pub open spec fn varint_text(text: Option<Seq<char>>) -> Seq<u8> {
    match text {
        Some(chars) => {
            let bytes = vstd::utf8::encode_utf8(chars);
            varint((bytes.len() % 0x1_0000_0000) as nat) + bytes
        },
        None => varint(0),
    }
}

pub fn encode_7bit(num: u32) -> (result: Vec<u8>)
    ensures
        result@ == varint(num as nat),
{
    let mut rest: u32 = num;
    let mut result: Vec<u8> = Vec::new();
    while rest >= 0x80
        invariant
            varint(num as nat) == result@ + varint(rest as nat),
        decreases rest,
    {
        let group: u32 = rest & 0x7F | 0x80;
        let shifted: u32 = rest >> 7;
        assert(group == rest % 0x80 + 0x80 && group < 0x100 && shifted == rest / 0x80) by (bit_vector)
            requires
                group == rest & 0x7F | 0x80,
                shifted == rest >> 7,
        ;
        assert(varint(rest as nat) == seq![group as u8] + varint(shifted as nat));
        result.push(group as u8);
        rest = shifted;
    }
    result.push(rest as u8);
    result
}

pub fn encode_7bit_string(string: Option<&str>) -> (result: Vec<u8>)
    ensures
        result@ == varint_text(
            match string {
                Some(text) => Some(text@),
                None => None,
            },
        ),
{
    match string {
        Some(text) => {
            let encoded = text.as_bytes();
            let len: usize = encoded.len();
            let prefix: u32 = len as u32;
            let wide: u64 = len as u64;
            assert(prefix == wide % 0x1_0000_0000) by (bit_vector)
                requires
                    prefix == len as u32,
                    wide == len as u64,
            ;
            let mut result = encode_7bit(prefix);
            result.extend_from_slice(encoded);
            result
        },
        None => encode_7bit(0),
    }
}

} // verus!
