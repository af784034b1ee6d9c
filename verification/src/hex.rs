//! Lowercase hexadecimal text.

use vstd::prelude::*;

verus! {

/// The lowercase hexadecimal digit for a value below sixteen.
pub open spec fn hex_digit(nibble: int) -> char {
    if nibble < 10 {
        (nibble + 0x30) as char
    } else {
        (nibble + 0x57) as char
    }
}

/// Two lowercase digits per byte, the high half first.
pub open spec fn hex_lower(bytes: Seq<u8>) -> Seq<char> {
    Seq::new(
        2 * bytes.len(),
        |i: int|
            if i % 2 == 0 {
                hex_digit(bytes[i / 2] as int / 16)
            } else {
                hex_digit(bytes[i / 2] as int % 16)
            },
    )
}

/// Whether the character is a lowercase hexadecimal digit.
pub open spec fn is_hex_char(c: char) -> bool {
    ('0' <= c <= '9') || ('a' <= c <= 'f')
}

/// Hexadecimal text holds nothing but lowercase hexadecimal digits: no
/// separator of a path and no dot.
pub proof fn lemma_hex_lower_is_hex(bytes: Seq<u8>)
    ensures
        forall|i: int| 0 <= i < hex_lower(bytes).len() ==> is_hex_char(#[trigger] hex_lower(bytes)[i]),
{
    assert forall|i: int| 0 <= i < hex_lower(bytes).len() implies is_hex_char(
        #[trigger] hex_lower(bytes)[i],
    ) by {
        let byte = bytes[i / 2] as int;
        let nibble = if i % 2 == 0 {
            byte / 16
        } else {
            byte % 16
        };
        assert(hex_lower(bytes)[i] == hex_digit(nibble));
        assert(hex_digit(nibble) as int == if nibble < 10 {
            nibble + 0x30
        } else {
            nibble + 0x57
        });
    }
}

/// Hexadecimal text determines the bytes it was made from.
pub proof fn lemma_hex_lower_injective(first: Seq<u8>, second: Seq<u8>)
    requires
        hex_lower(first) == hex_lower(second),
    ensures
        first == second,
{
    assert(hex_lower(first).len() == 2 * first.len());
    assert(hex_lower(second).len() == 2 * second.len());
    assert forall|k: int| 0 <= k < first.len() implies first[k] == second[k] by {
        let a = first[k] as int;
        let b = second[k] as int;
        assert(hex_lower(first)[2 * k] == hex_digit(a / 16));
        assert(hex_lower(second)[2 * k] == hex_digit(b / 16));
        assert(hex_lower(first)[2 * k + 1] == hex_digit(a % 16));
        assert(hex_lower(second)[2 * k + 1] == hex_digit(b % 16));
        lemma_hex_digit_injective(a / 16, b / 16);
        lemma_hex_digit_injective(a % 16, b % 16);
    }
    assert(first =~= second);
}

/// Distinct values below sixteen have distinct digits.
pub proof fn lemma_hex_digit_injective(first: int, second: int)
    requires
        0 <= first < 16,
        0 <= second < 16,
        hex_digit(first) == hex_digit(second),
    ensures
        first == second,
{
    assert(hex_digit(first) as int == if first < 10 { first + 0x30 } else { first + 0x57 });
    assert(hex_digit(second) as int == if second < 10 { second + 0x30 } else { second + 0x57 });
}

/// Calls `hex::encode`. Believed, not proved: the text is two lowercase
/// hexadecimal digits for each byte, in order, the high half first.
#[verifier::external_body]
pub(crate) fn hex_encode(bytes: &[u8; 32]) -> (text: String)
    ensures
        text@ == hex_lower(bytes@),
{
    hex::encode(bytes)
}

/// Calls `data_encoding::HEXLOWER.encode`. Believed, not proved: the text is
/// two lowercase hexadecimal digits for each byte, in order, the high half
/// first.
#[verifier::external_body]
pub(crate) fn hexlower_encode(bytes: &[u8; 64]) -> (text: String)
    ensures
        text@ == hex_lower(bytes@),
{
    data_encoding::HEXLOWER.encode(bytes)
}

/// Calls `blake3::Hash::to_hex`. Believed, not proved: the text is two
/// lowercase hexadecimal digits for each byte, in order, the high half first.
#[verifier::external_body]
pub(crate) fn blake3_to_hex(bytes: [u8; 32]) -> (text: String)
    ensures
        text@ == hex_lower(bytes@),
{
    blake3::Hash::from_bytes(bytes).to_hex().to_string()
}

} // verus!
