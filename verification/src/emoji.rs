//! The alternate, printable serialization of a byte buffer: each of the
//! twenty-four opcode byte values maps to a distinct pictographic
//! symbol, and every other byte value maps to the character whose code
//! point equals it. Decoding reverses the symbol table and truncates
//! any other character to the low byte of its code point, so decoding
//! inverts encoding on every byte buffer.

use vstd::prelude::*;
use vstd::string::StrSliceExecFns;

verus! {

/// The character a byte value serializes to.
pub open spec fn symbol_of(b: u8) -> char {
    if b == 0 {
        '\u{1F51A}'
    } else if b == 1 {
        '\u{1F9F1}'
    } else if b == 2 {
        '\u{1F527}'
    } else if b == 3 {
        '\u{2795}'
    } else if b == 4 {
        '\u{2796}'
    } else if b == 5 {
        '\u{274C}'
    } else if b == 6 {
        '\u{2797}'
    } else if b == 7 {
        '\u{2757}'
    } else if b == 8 {
        '\u{2728}'
    } else if b == 9 {
        '\u{1F97A}'
    } else if b == 10 {
        '\u{1F610}'
    } else if b == 11 {
        '\u{1F60C}'
    } else if b == 12 {
        '\u{1F4C8}'
    } else if b == 13 {
        '\u{1F614}'
    } else if b == 14 {
        '\u{1F4C9}'
    } else if b == 15 {
        '\u{1F6F9}'
    } else if b == 16 {
        '\u{1F4DD}'
    } else if b == 17 {
        '\u{1F4D6}'
    } else if b == 18 {
        '\u{1F4DA}'
    } else if b == 19 {
        '\u{1F998}'
    } else if b == 20 {
        '\u{1F519}'
    } else if b == 21 {
        '\u{1F51B}'
    } else if b == 22 {
        '\u{1F51C}'
    } else if b == 23 {
        '\u{1F62D}'
    } else {
        b as char
    }
}

/// The byte value a character deserializes to: a known symbol goes back
/// to its opcode byte, anything else to the low byte of its code point.
pub open spec fn byte_of(c: char) -> u8 {
    if c == '\u{1F51A}' {
        0
    } else if c == '\u{1F9F1}' {
        1
    } else if c == '\u{1F527}' {
        2
    } else if c == '\u{2795}' {
        3
    } else if c == '\u{2796}' {
        4
    } else if c == '\u{274C}' {
        5
    } else if c == '\u{2797}' {
        6
    } else if c == '\u{2757}' {
        7
    } else if c == '\u{2728}' {
        8
    } else if c == '\u{1F97A}' {
        9
    } else if c == '\u{1F610}' {
        10
    } else if c == '\u{1F60C}' {
        11
    } else if c == '\u{1F4C8}' {
        12
    } else if c == '\u{1F614}' {
        13
    } else if c == '\u{1F4C9}' {
        14
    } else if c == '\u{1F6F9}' {
        15
    } else if c == '\u{1F4DD}' {
        16
    } else if c == '\u{1F4D6}' {
        17
    } else if c == '\u{1F4DA}' {
        18
    } else if c == '\u{1F998}' {
        19
    } else if c == '\u{1F519}' {
        20
    } else if c == '\u{1F51B}' {
        21
    } else if c == '\u{1F51C}' {
        22
    } else if c == '\u{1F62D}' {
        23
    } else {
        (((c as u32) % 256) as u8)
    }
}

/// The serialization of a whole byte buffer.
pub open spec fn spec_text_encode(bytes: Seq<u8>) -> Seq<char> {
    bytes.map_values(|b: u8| symbol_of(b))
}

/// The deserialization of a whole character sequence.
pub open spec fn spec_text_decode(text: Seq<char>) -> Seq<u8> {
    text.map_values(|c: char| byte_of(c))
}

/// Deserializing inverts serializing on one byte value.
proof fn lemma_byte_round_trip(b: u8)
    ensures
        byte_of(symbol_of(b)) == b,
{
    if b >= 24 {
        assert((b as char) as u32 == b);
    }
}

/// Decoding inverts encoding on every byte buffer.
pub proof fn lemma_text_round_trip(bytes: Seq<u8>)
    ensures
        spec_text_decode(spec_text_encode(bytes)) == bytes,
{
    assert forall|i: int| 0 <= i < bytes.len() implies spec_text_decode(spec_text_encode(bytes))[i]
        == bytes[i] by {
        lemma_byte_round_trip(bytes[i]);
    };
    assert(spec_text_decode(spec_text_encode(bytes)) =~= bytes);
}

/// Relies on String::push: appends exactly one character.
#[verifier::external_body]
fn push_char(s: &mut String, c: char)
    ensures
        final(s)@ == old(s)@.push(c),
{
    s.push(c);
}

/// The character one byte value serializes to, per `symbol_of`.
fn encode_byte(b: u8) -> (c: char)
    ensures
        c == symbol_of(b),
{
    if b == 0 {
        '\u{1F51A}'
    } else if b == 1 {
        '\u{1F9F1}'
    } else if b == 2 {
        '\u{1F527}'
    } else if b == 3 {
        '\u{2795}'
    } else if b == 4 {
        '\u{2796}'
    } else if b == 5 {
        '\u{274C}'
    } else if b == 6 {
        '\u{2797}'
    } else if b == 7 {
        '\u{2757}'
    } else if b == 8 {
        '\u{2728}'
    } else if b == 9 {
        '\u{1F97A}'
    } else if b == 10 {
        '\u{1F610}'
    } else if b == 11 {
        '\u{1F60C}'
    } else if b == 12 {
        '\u{1F4C8}'
    } else if b == 13 {
        '\u{1F614}'
    } else if b == 14 {
        '\u{1F4C9}'
    } else if b == 15 {
        '\u{1F6F9}'
    } else if b == 16 {
        '\u{1F4DD}'
    } else if b == 17 {
        '\u{1F4D6}'
    } else if b == 18 {
        '\u{1F4DA}'
    } else if b == 19 {
        '\u{1F998}'
    } else if b == 20 {
        '\u{1F519}'
    } else if b == 21 {
        '\u{1F51B}'
    } else if b == 22 {
        '\u{1F51C}'
    } else if b == 23 {
        '\u{1F62D}'
    } else {
        b as char
    }
}

/// The byte value one character deserializes to, per `byte_of`.
fn decode_char(c: char) -> (b: u8)
    ensures
        b == byte_of(c),
{
    if c == '\u{1F51A}' {
        0
    } else if c == '\u{1F9F1}' {
        1
    } else if c == '\u{1F527}' {
        2
    } else if c == '\u{2795}' {
        3
    } else if c == '\u{2796}' {
        4
    } else if c == '\u{274C}' {
        5
    } else if c == '\u{2797}' {
        6
    } else if c == '\u{2757}' {
        7
    } else if c == '\u{2728}' {
        8
    } else if c == '\u{1F97A}' {
        9
    } else if c == '\u{1F610}' {
        10
    } else if c == '\u{1F60C}' {
        11
    } else if c == '\u{1F4C8}' {
        12
    } else if c == '\u{1F614}' {
        13
    } else if c == '\u{1F4C9}' {
        14
    } else if c == '\u{1F6F9}' {
        15
    } else if c == '\u{1F4DD}' {
        16
    } else if c == '\u{1F4D6}' {
        17
    } else if c == '\u{1F4DA}' {
        18
    } else if c == '\u{1F998}' {
        19
    } else if c == '\u{1F519}' {
        20
    } else if c == '\u{1F51B}' {
        21
    } else if c == '\u{1F51C}' {
        22
    } else if c == '\u{1F62D}' {
        23
    } else {
        (((c as u32) % 256) as u8)
    }
}

/// Serializes a byte buffer into its printable form, per
/// `spec_text_encode`.
pub fn encode_ops(bytes: &Vec<u8>) -> (r: String)
    ensures
        r@ == spec_text_encode(bytes@),
{
    let mut res = String::new();
    let n = bytes.len();
    let mut i: usize = 0;
    while i < n
        invariant
            i <= n,
            n == bytes@.len(),
            res@ == spec_text_encode(bytes@.take(i as int)),
        decreases n - i,
    {
        let c = encode_byte(bytes[i]);
        push_char(&mut res, c);
        proof {
            assert(res@ =~= spec_text_encode(bytes@.take(i + 1)));
        }
        i = i + 1;
    }
    proof {
        assert(bytes@.take(n as int) =~= bytes@);
    }
    res
}

/// Deserializes a printable form back into its byte buffer, per
/// `spec_text_decode`.
pub fn decode_ops(ops: String) -> (r: Vec<u8>)
    ensures
        r@ == spec_text_decode(ops@),
{
    let mut res: Vec<u8> = Vec::new();
    let n = ops.as_str().unicode_len();
    let mut i: usize = 0;
    while i < n
        invariant
            i <= n,
            n == ops@.len(),
            res@ == spec_text_decode(ops@.take(i as int)),
        decreases n - i,
    {
        let c = ops.as_str().get_char(i);
        let b = decode_char(c);
        res.push(b);
        proof {
            assert(res@ =~= spec_text_decode(ops@.take(i + 1)));
        }
        i = i + 1;
    }
    proof {
        assert(ops@.take(n as int) =~= ops@);
    }
    res
}

} // verus!
