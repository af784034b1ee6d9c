//! The pieces of compact JSON text that the attribute map is written in:
//! quoted strings, unsigned numbers and arrays of bytes.

use crate::hex::hex_digit;
use vstd::prelude::*;

verus! {

/// `serde_json::Error`, carried through and never looked into.
#[verifier::external_type_specification]
#[verifier::external_body]
pub struct ExJsonError(serde_json::Error);

/// The decimal digit for a value below ten.
pub open spec fn digit(value: nat) -> char {
    (value + 0x30) as char
}

/// A number in decimal, without sign, padding or leading zero.
pub open spec fn decimal(value: nat) -> Seq<char>
    decreases value,
{
    if value < 10 {
        seq![digit(value)]
    } else {
        decimal(value / 10).push(digit(value % 10))
    }
}

/// How one character stands inside a quoted string: the quote and the
/// backslash behind a backslash, the control characters below U+0020 by their
/// short escape where there is one and as `\u00` with two lowercase
/// hexadecimal digits where there is none, every other character as itself.
pub open spec fn escaped_char(c: char) -> Seq<char> {
    if c == '"' {
        seq!['\\', '"']
    } else if c == '\\' {
        seq!['\\', '\\']
    } else if c == '\u{8}' {
        seq!['\\', 'b']
    } else if c == '\u{c}' {
        seq!['\\', 'f']
    } else if c == '\n' {
        seq!['\\', 'n']
    } else if c == '\r' {
        seq!['\\', 'r']
    } else if c == '\t' {
        seq!['\\', 't']
    } else if (c as int) < 0x20 {
        seq!['\\', 'u', '0', '0', hex_digit(c as int / 16), hex_digit(c as int % 16)]
    } else {
        seq![c]
    }
}

/// The characters of a text, each as it stands inside a quoted string.
pub open spec fn escaped(text: Seq<char>) -> Seq<char>
    decreases text.len(),
{
    if text.len() == 0 {
        Seq::empty()
    } else {
        escaped(text.drop_last()) + escaped_char(text.last())
    }
}

/// A text as a JSON string: its escaped characters between two quotes.
pub open spec fn json_string(text: Seq<char>) -> Seq<char> {
    seq!['"'] + escaped(text) + seq!['"']
}

/// The bytes as decimal numbers with a comma between neighbours.
pub open spec fn byte_items(bytes: Seq<u8>) -> Seq<char>
    decreases bytes.len(),
{
    if bytes.len() == 0 {
        Seq::empty()
    } else if bytes.len() == 1 {
        decimal(bytes[0] as nat)
    } else {
        byte_items(bytes.drop_last()) + seq![','] + decimal(bytes.last() as nat)
    }
}

/// The bytes as a JSON array of numbers.
pub open spec fn json_byte_array(bytes: Seq<u8>) -> Seq<char> {
    seq!['['] + byte_items(bytes) + seq![']']
}

/// A number in decimal is one or more digits.
pub proof fn lemma_decimal_is_digits(value: nat)
    ensures
        decimal(value).len() >= 1,
        value >= 10 ==> decimal(value).len() >= 2,
        forall|k: int| 0 <= k < decimal(value).len() ==> '0' <= #[trigger] decimal(value)[k] <= '9',
    decreases value,
{
    if value >= 10 {
        lemma_decimal_is_digits(value / 10);
        let front = decimal(value / 10);
        assert forall|k: int| 0 <= k < decimal(value).len() implies '0' <= #[trigger] decimal(
            value,
        )[k] <= '9' by {
            if k < front.len() {
                assert(decimal(value)[k] == front[k]);
            }
        }
    }
}

/// Different numbers are written differently.
pub proof fn lemma_decimal_injective(first: nat, second: nat)
    requires
        decimal(first) == decimal(second),
    ensures
        first == second,
    decreases first,
{
    lemma_decimal_is_digits(first);
    lemma_decimal_is_digits(second);
    if first >= 10 {
        assert(second >= 10);
        let a = decimal(first / 10);
        let b = decimal(second / 10);
        assert(decimal(first).drop_last() =~= a);
        assert(decimal(second).drop_last() =~= b);
        assert(decimal(first).last() == digit(first % 10));
        assert(decimal(second).last() == digit(second % 10));
        assert(digit(first % 10) as int == first % 10 + 0x30);
        assert(digit(second % 10) as int == second % 10 + 0x30);
        lemma_decimal_injective(first / 10, second / 10);
    } else {
        assert(second < 10);
        assert(decimal(first)[0] == digit(first));
        assert(decimal(second)[0] == digit(second));
        assert(digit(first) as int == first + 0x30);
        assert(digit(second) as int == second + 0x30);
    }
}

/// Calls `serde_json::to_string` on a `str`. Believed, not proved: the result
/// is the text between two quotes with each character escaped as
/// [`escaped_char`] says, and the call does not fail, since it writes to
/// memory and a `str` serialises as a string.
#[verifier::external_body]
pub(crate) fn json_quote(text: &str) -> (quoted: Result<String, serde_json::Error>)
    ensures
        quoted is Ok,
        quoted matches Ok(string) ==> string@ == json_string(text@),
{
    serde_json::to_string(text)
}

/// The text of a decimal digit.
fn digit_text(value: u32) -> (text: &'static str)
    requires
        value < 10,
    ensures
        text@ == seq![digit(value as nat)],
{
    proof {
        reveal_strlit("0");
        reveal_strlit("1");
        reveal_strlit("2");
        reveal_strlit("3");
        reveal_strlit("4");
        reveal_strlit("5");
        reveal_strlit("6");
        reveal_strlit("7");
        reveal_strlit("8");
        reveal_strlit("9");
    }
    let text = if value == 0 {
        "0"
    } else if value == 1 {
        "1"
    } else if value == 2 {
        "2"
    } else if value == 3 {
        "3"
    } else if value == 4 {
        "4"
    } else if value == 5 {
        "5"
    } else if value == 6 {
        "6"
    } else if value == 7 {
        "7"
    } else if value == 8 {
        "8"
    } else {
        "9"
    };
    assert(text@ =~= seq![digit(value as nat)]);
    text
}

/// Appends a number in decimal.
pub fn push_decimal(out: &mut String, value: u32)
    ensures
        final(out)@ == old(out)@ + decimal(value as nat),
    decreases value,
{
    if value >= 10 {
        push_decimal(out, value / 10);
    }
    out.append(digit_text(value % 10));
    assert(out@ =~= old(out)@ + decimal(value as nat));
}

/// Appends the bytes as a JSON array of numbers.
pub fn push_byte_array(out: &mut String, bytes: &[u8])
    ensures
        final(out)@ == old(out)@ + json_byte_array(bytes@),
{
    proof {
        reveal_strlit("[");
        reveal_strlit("]");
    }
    out.append("[");
    let mut index: usize = 0;
    while index < bytes.len()
        invariant
            index <= bytes.len(),
            out@ == old(out)@ + seq!['['] + byte_items(bytes@.take(index as int)),
        decreases bytes.len() - index,
    {
        if index > 0 {
            proof {
                reveal_strlit(",");
            }
            out.append(",");
        }
        push_decimal(out, bytes[index] as u32);
        proof {
            let shorter = bytes@.take(index as int);
            let longer = bytes@.take(index + 1);
            assert(longer.drop_last() =~= shorter);
            assert(longer.last() == bytes@[index as int]);
            if index == 0 {
                assert(byte_items(shorter) =~= Seq::empty());
                assert(byte_items(longer) == decimal(bytes@[0] as nat));
            } else {
                assert(byte_items(longer) == byte_items(shorter) + seq![','] + decimal(
                    bytes@[index as int] as nat,
                ));
            }
            assert(out@ =~= old(out)@ + seq!['['] + byte_items(longer));
        }
        index += 1;
    }
    assert(bytes@.take(index as int) =~= bytes@);
    out.append("]");
    assert(out@ =~= old(out)@ + json_byte_array(bytes@));
}

} // verus!
