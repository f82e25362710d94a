//! The pieces of compact JSON that signed payloads are made of: decimal
//! integers and escaped strings.

use vstd::prelude::*;
use vstd::utf8::encode_utf8;

verus! {

/// The ASCII digit for `value`, which is below ten.
pub open spec fn decimal_digit(value: nat) -> u8
    recommends
        value < 10,
{
    (48 + value) as u8
}

/// `n` in decimal, without leading zeros.
pub open spec fn decimal_digits(n: nat) -> Seq<u8>
    decreases n,
{
    if n < 10 {
        seq![decimal_digit(n)]
    } else {
        decimal_digits(n / 10).push(decimal_digit(n % 10))
    }
}

/// `n` in decimal, with a minus sign in front where it is negative.
pub open spec fn decimal_integer(n: int) -> Seq<u8> {
    if n < 0 {
        seq![45u8] + decimal_digits((-n) as nat)
    } else {
        decimal_digits(n as nat)
    }
}

/// The lower-case hexadecimal digit for `value`, which is below sixteen.
pub open spec fn hex_digit(value: nat) -> u8
    recommends
        value < 16,
{
    if value < 10 {
        (48 + value) as u8
    } else {
        (87 + value) as u8
    }
}

/// What stands for one byte of a string inside a JSON string: the quote and
/// the backslash get a backslash in front, the control characters below
/// 0x20 their short escape or `\u00` and two hexadecimal digits, and every
/// other byte stands for itself.
pub open spec fn json_escaped_byte(byte: u8) -> Seq<u8> {
    if byte == 0x22 {
        seq![0x5cu8, 0x22u8]
    } else if byte == 0x5c {
        seq![0x5cu8, 0x5cu8]
    } else if byte == 0x08 {
        seq![0x5cu8, 0x62u8]
    } else if byte == 0x09 {
        seq![0x5cu8, 0x74u8]
    } else if byte == 0x0a {
        seq![0x5cu8, 0x6eu8]
    } else if byte == 0x0c {
        seq![0x5cu8, 0x66u8]
    } else if byte == 0x0d {
        seq![0x5cu8, 0x72u8]
    } else if byte < 0x20 {
        seq![
            0x5cu8,
            0x75u8,
            0x30u8,
            0x30u8,
            hex_digit((byte / 16) as nat),
            hex_digit((byte % 16) as nat),
        ]
    } else {
        seq![byte]
    }
}

/// The bytes of a string with each of them escaped for JSON.
pub open spec fn json_escaped(bytes: Seq<u8>) -> Seq<u8>
    decreases bytes.len(),
{
    if bytes.len() == 0 {
        Seq::empty()
    } else {
        json_escaped(bytes.drop_last()) + json_escaped_byte(bytes.last())
    }
}

/// The JSON string for the UTF-8 bytes of a text: the escaped bytes between
/// two quotes.
pub open spec fn json_string(bytes: Seq<u8>) -> Seq<u8> {
    seq![0x22u8] + json_escaped(bytes) + seq![0x22u8]
}

/// Appends `n` in decimal to `out`.
pub fn push_decimal(out: &mut Vec<u8>, n: u64)
    ensures
        final(out)@ == old(out)@ + decimal_digits(n as nat),
    decreases n,
{
    if n >= 10 {
        push_decimal(out, n / 10);
    }
    let digit: u8 = 48 + (n % 10) as u8;
    out.push(digit);
    proof {
        let before = old(out)@;
        if n >= 10 {
            assert((before + decimal_digits((n / 10) as nat)).push(digit) == before
                + decimal_digits(n as nat));
        } else {
            assert(before.push(digit) == before + decimal_digits(n as nat));
        }
    }
}

/// Appends `n` in decimal to `out`, with a minus sign where it is negative.
pub fn push_decimal_signed(out: &mut Vec<u8>, n: i64)
    ensures
        final(out)@ == old(out)@ + decimal_integer(n as int),
{
    if n < 0 {
        out.push(45u8);
        let magnitude: u64 = if n == i64::MIN {
            9223372036854775808u64
        } else {
            (-n) as u64
        };
        push_decimal(out, magnitude);
        proof {
            assert(old(out)@.push(45u8) + decimal_digits(magnitude as nat) == old(out)@ + (seq![
                45u8,
            ] + decimal_digits(magnitude as nat)));
        }
    } else {
        push_decimal(out, n as u64);
    }
}

/// Writes a text as a JSON string with `serde_json::to_vec`. The contract
/// claims what the serializer's escape table and its compact formatter show:
/// the result is the text's UTF-8 bytes, escaped, between two quotes; and
/// that a text never fails to serialize into a vector.
#[verifier::external_body]
fn json_string_bytes(text: &str) -> (res: Vec<u8>)
    ensures
        res@ == json_string(encode_utf8(text@)),
{
    serde_json::to_vec(text).unwrap_or_default()
}

/// Appends `text` as a JSON string to `out`.
pub fn push_json_string(out: &mut Vec<u8>, text: &str)
    ensures
        final(out)@ == old(out)@ + json_string(encode_utf8(text@)),
{
    let mut quoted = json_string_bytes(text);
    out.append(&mut quoted);
}

} // verus!
