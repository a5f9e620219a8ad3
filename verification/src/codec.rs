//! Text encodings of binary values: lower-case hex (the `hex` crate),
//! standard padded base64 (the `base64` crate) and hyphenated UUIDs
//! (the `uuid` crate), each with the mathematical statement of its output.
use vstd::prelude::*;
use crate::text::hex_digit;
use vstd::arithmetic::power::pow;
use base64::Engine;

verus! {

/// Lower-case hexadecimal text of a byte sequence, two digits per byte.
pub open spec fn hex_lower(b: Seq<u8>) -> Seq<char> {
    Seq::new(
        (2 * b.len()) as nat,
        |i: int|
            if i % 2 == 0 {
                hex_digit(b[i / 2] as int / 16)
            } else {
                hex_digit(b[i / 2] as int % 16)
            },
    )
}

/// Character of the standard base64 alphabet for a six-bit value.
pub open spec fn b64_char(v: int) -> char {
    if v < 26 {
        ((v + 65) as u8) as char
    } else if v < 52 {
        ((v + 71) as u8) as char
    } else if v < 62 {
        ((v - 4) as u8) as char
    } else if v == 62 {
        '+'
    } else {
        '/'
    }
}

/// Standard base64 with `=` padding (RFC 4648, section 4).
pub open spec fn b64_encode(b: Seq<u8>) -> Seq<char>
    decreases b.len(),
{
    if b.len() == 0 {
        Seq::empty()
    } else if b.len() == 1 {
        seq![b64_char(b[0] as int / 4), b64_char((b[0] as int % 4) * 16), '=', '=']
    } else if b.len() == 2 {
        seq![
            b64_char(b[0] as int / 4),
            b64_char((b[0] as int % 4) * 16 + b[1] as int / 16),
            b64_char((b[1] as int % 16) * 4),
            '=',
        ]
    } else {
        seq![
            b64_char(b[0] as int / 4),
            b64_char((b[0] as int % 4) * 16 + b[1] as int / 16),
            b64_char((b[1] as int % 16) * 4 + b[2] as int / 64),
            b64_char(b[2] as int % 64),
        ] + b64_encode(b.skip(3))
    }
}

/// `s` is the base64 text of some byte sequence.
pub open spec fn is_b64_text(s: Seq<char>) -> bool {
    exists|b: Seq<u8>| b64_encode(b) == s
}

/// Big-endian bytes of a 128-bit value.
pub open spec fn u128_be_bytes(v: u128) -> Seq<u8> {
    Seq::new(16, |i: int| ((v as int / pow(256, (15 - i) as nat)) % 256) as u8)
}

/// Hyphenated lower-case text of a UUID (8-4-4-4-12 hex digits).
pub open spec fn uuid_text(v: u128) -> Seq<char> {
    let h = hex_lower(u128_be_bytes(v));
    h.subrange(0, 8) + seq!['-'] + h.subrange(8, 12) + seq!['-'] + h.subrange(12, 16) + seq!['-']
        + h.subrange(16, 20) + seq!['-'] + h.subrange(20, 32)
}

proof fn lemma_b64_char_injective(x: int, y: int)
    requires
        0 <= x < 64,
        0 <= y < 64,
        b64_char(x) == b64_char(y),
    ensures
        x == y,
{
}

proof fn lemma_b64_char_not_pad(x: int)
    requires
        0 <= x < 64,
    ensures
        b64_char(x) != '=',
{
}

proof fn lemma_b64_len(b: Seq<u8>)
    ensures
        b64_encode(b).len() == 4 * ((b.len() + 2) / 3),
    decreases b.len(),
{
    if b.len() >= 3 {
        lemma_b64_len(b.skip(3));
    }
}

proof fn lemma_group3(a0: int, a1: int, a2: int, b0: int, b1: int, b2: int)
    requires
        0 <= a0 < 256,
        0 <= a1 < 256,
        0 <= a2 < 256,
        0 <= b0 < 256,
        0 <= b1 < 256,
        0 <= b2 < 256,
        a0 / 4 == b0 / 4,
        (a0 % 4) * 16 + a1 / 16 == (b0 % 4) * 16 + b1 / 16,
        (a1 % 16) * 4 + a2 / 64 == (b1 % 16) * 4 + b2 / 64,
        a2 % 64 == b2 % 64,
    ensures
        a0 == b0,
        a1 == b1,
        a2 == b2,
{
    assert(a1 / 16 < 16 && b1 / 16 < 16);
    assert(a0 % 4 == b0 % 4 && a1 / 16 == b1 / 16);
    assert(a0 == b0);
    assert(a2 / 64 < 4 && b2 / 64 < 4);
    assert(a1 % 16 == b1 % 16 && a2 / 64 == b2 / 64);
    assert(a1 == b1);
    assert(a2 == b2);
}

proof fn lemma_group2(a0: int, a1: int, b0: int, b1: int)
    requires
        0 <= a0 < 256,
        0 <= a1 < 256,
        0 <= b0 < 256,
        0 <= b1 < 256,
        a0 / 4 == b0 / 4,
        (a0 % 4) * 16 + a1 / 16 == (b0 % 4) * 16 + b1 / 16,
        (a1 % 16) * 4 == (b1 % 16) * 4,
    ensures
        a0 == b0,
        a1 == b1,
{
    assert(a1 / 16 < 16 && b1 / 16 < 16);
    assert(a0 % 4 == b0 % 4 && a1 / 16 == b1 / 16);
}

proof fn lemma_chars(a: Seq<u8>, k: int)
    requires
        0 <= k < a.len(),
    ensures
        0 <= a[k] as int / 4 < 64,
        0 <= (a[k] as int % 4) * 16 < 64,
        0 <= (a[k] as int % 16) * 4 < 64,
        0 <= a[k] as int % 64 < 64,
        0 <= a[k] as int / 16 < 16,
        0 <= a[k] as int / 64 < 4,
{
}

/// Base64 encoding is one to one: distinct byte sequences have distinct
/// texts, so decoding a text gives back the bytes it was made from.
pub proof fn lemma_b64_injective(a: Seq<u8>, b: Seq<u8>)
    requires
        b64_encode(a) == b64_encode(b),
    ensures
        a == b,
    decreases a.len(),
{
    lemma_b64_len(a);
    lemma_b64_len(b);
    let ea = b64_encode(a);
    let eb = b64_encode(b);
    if a.len() == 0 || b.len() == 0 {
        assert(a.len() == 0 && b.len() == 0);
        assert(a =~= b);
        return;
    }
    lemma_chars(a, 0);
    lemma_chars(b, 0);
    assert(ea[0] == eb[0] && ea[1] == eb[1] && ea[2] == eb[2] && ea[3] == eb[3]);
    if a.len() == 1 {
        assert(ea[2] == '=');
        if b.len() >= 2 {
            lemma_chars(b, 1);
            lemma_b64_char_not_pad((b[1] as int % 16) * 4 + (if b.len() >= 3 { b[2] as int / 64 } else { 0 }));
            if b.len() >= 3 {
                lemma_chars(b, 2);
            }
            assert(false);
        }
        lemma_b64_char_injective(a[0] as int / 4, b[0] as int / 4);
        lemma_b64_char_injective((a[0] as int % 4) * 16, (b[0] as int % 4) * 16);
        assert(a[0] == b[0]);
        assert(a =~= b);
        return;
    }
    if b.len() == 1 {
        assert(eb[2] == '=');
        lemma_chars(a, 1);
        if a.len() >= 3 {
            lemma_chars(a, 2);
        }
        lemma_b64_char_not_pad((a[1] as int % 16) * 4 + (if a.len() >= 3 { a[2] as int / 64 } else { 0 }));
        assert(false);
    }
    lemma_chars(a, 1);
    lemma_chars(b, 1);
    if a.len() == 2 {
        assert(ea[3] == '=');
        if b.len() >= 3 {
            lemma_chars(b, 2);
            lemma_b64_char_not_pad(b[2] as int % 64);
            assert(false);
        }
        lemma_b64_char_injective(a[0] as int / 4, b[0] as int / 4);
        lemma_b64_char_injective(
            (a[0] as int % 4) * 16 + a[1] as int / 16,
            (b[0] as int % 4) * 16 + b[1] as int / 16,
        );
        lemma_b64_char_injective((a[1] as int % 16) * 4, (b[1] as int % 16) * 4);
        lemma_group2(a[0] as int, a[1] as int, b[0] as int, b[1] as int);
        assert(a =~= b);
        return;
    }
    if b.len() == 2 {
        assert(eb[3] == '=');
        lemma_chars(a, 2);
        lemma_b64_char_not_pad(a[2] as int % 64);
        assert(false);
    }
    lemma_chars(a, 2);
    lemma_chars(b, 2);
    let ga = seq![
        b64_char(a[0] as int / 4),
        b64_char((a[0] as int % 4) * 16 + a[1] as int / 16),
        b64_char((a[1] as int % 16) * 4 + a[2] as int / 64),
        b64_char(a[2] as int % 64),
    ];
    let gb = seq![
        b64_char(b[0] as int / 4),
        b64_char((b[0] as int % 4) * 16 + b[1] as int / 16),
        b64_char((b[1] as int % 16) * 4 + b[2] as int / 64),
        b64_char(b[2] as int % 64),
    ];
    assert(ea == ga + b64_encode(a.skip(3)));
    assert(eb == gb + b64_encode(b.skip(3)));
    assert(ea[0] == ga[0] && ea[1] == ga[1] && ea[2] == ga[2] && ea[3] == ga[3]);
    assert(eb[0] == gb[0] && eb[1] == gb[1] && eb[2] == gb[2] && eb[3] == gb[3]);
    lemma_b64_char_injective(a[0] as int / 4, b[0] as int / 4);
    lemma_b64_char_injective(
        (a[0] as int % 4) * 16 + a[1] as int / 16,
        (b[0] as int % 4) * 16 + b[1] as int / 16,
    );
    lemma_b64_char_injective(
        (a[1] as int % 16) * 4 + a[2] as int / 64,
        (b[1] as int % 16) * 4 + b[2] as int / 64,
    );
    lemma_b64_char_injective(a[2] as int % 64, b[2] as int % 64);
    lemma_group3(a[0] as int, a[1] as int, a[2] as int, b[0] as int, b[1] as int, b[2] as int);
    assert(ea.skip(4) =~= b64_encode(a.skip(3)));
    assert(eb.skip(4) =~= b64_encode(b.skip(3)));
    lemma_b64_injective(a.skip(3), b.skip(3));
    assert(a =~= seq![a[0], a[1], a[2]] + a.skip(3));
    assert(b =~= seq![b[0], b[1], b[2]] + b.skip(3));
}

/// Error of `base64` decoding.
#[verifier::external_type_specification]
#[verifier::external_body]
pub struct ExDecodeError(base64::DecodeError);

/// `hex::encode`: lower-case hexadecimal text, two digits per byte.
#[verifier::external_body]
pub(crate) fn hex_encode(bytes: &[u8]) -> (r: String)
    ensures
        r@ == hex_lower(bytes@),
{
    hex::encode(bytes)
}

/// `base64::engine::general_purpose::STANDARD.encode`: padded standard
/// base64 text of the bytes.
#[verifier::external_body]
pub(crate) fn base64_encode(bytes: &[u8]) -> (r: String)
    ensures
        r@ == b64_encode(bytes@),
{
    base64::engine::general_purpose::STANDARD.encode(bytes)
}

/// `base64::engine::general_purpose::STANDARD.decode`: the STANDARD engine
/// requires canonical padding and rejects non-zero trailing bits, so it
/// accepts exactly the texts that its encoder produces, and gives back the
/// bytes that such a text encodes.
#[verifier::external_body]
pub(crate) fn base64_decode(text: &str) -> (r: Result<Vec<u8>, base64::DecodeError>)
    ensures
        r matches Ok(v) ==> b64_encode(v@) == text@,
        is_b64_text(text@) ==> r is Ok,
{
    base64::engine::general_purpose::STANDARD.decode(text)
}

/// `DecodeError`'s `Display` text (`e.to_string()`); the error is opaque
/// here, so nothing is stated of the text.
#[verifier::external_body]
pub(crate) fn decode_error_text(e: &base64::DecodeError) -> (r: String) {
    e.to_string()
}

/// `uuid::Uuid::from_u128(v).to_string()`: the hyphenated lower-case text
/// of the UUID whose big-endian bytes are those of `v`.
#[verifier::external_body]
pub(crate) fn uuid_to_text(v: u128) -> (r: String)
    ensures
        r@ == uuid_text(v),
{
    uuid::Uuid::from_u128(v).to_string()
}

/// `uuid::Uuid::new_v4()`, as its 128-bit value. The value is random: no
/// property of it is stated.
#[verifier::external_body]
pub(crate) fn new_v4_id() -> (r: u128) {
    uuid::Uuid::new_v4().as_u128()
}

/// Base64 decoding of a text produced by base64 encoding gives the bytes back.
pub proof fn lemma_b64_roundtrip(b: Seq<u8>, v: Seq<u8>)
    requires
        b64_encode(v) == b64_encode(b),
    ensures
        v == b,
{
    lemma_b64_injective(v, b);
}

} // verus!
