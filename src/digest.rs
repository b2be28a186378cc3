//! The text form of a 32-byte content digest: 64 lowercase hexadecimal
//! digits, two per byte, high nibble first.

use hex::{FromHex, FromHexError};
use vstd::prelude::*;

verus! {

#[verifier::external_type_specification]
#[verifier::external_body]
pub struct ExFromHexError(FromHexError);

/// The lowercase hexadecimal digit of `v`, for `v < 16`.
pub open spec fn hex_char(v: nat) -> char {
    if v < 10 {
        ((v + 48) as u32) as char
    } else {
        ((v + 87) as u32) as char
    }
}

/// The lowercase hexadecimal text of `b`, two digits per byte.
pub open spec fn hex_of(b: Seq<u8>) -> Seq<char>
    decreases b.len(),
{
    if b.len() == 0 {
        Seq::empty()
    } else {
        seq![hex_char(b[0] as nat / 16), hex_char(b[0] as nat % 16)] + hex_of(b.drop_first())
    }
}

/// A hexadecimal digit of either case.
pub open spec fn is_hex_char(c: char) -> bool {
    ('0' <= c && c <= '9') || ('a' <= c && c <= 'f') || ('A' <= c && c <= 'F')
}

/// The value of a hexadecimal digit.
pub open spec fn hex_value(c: char) -> nat {
    if '0' <= c && c <= '9' {
        (c as int - 48) as nat
    } else if 'a' <= c && c <= 'f' {
        (c as int - 87) as nat
    } else {
        (c as int - 55) as nat
    }
}

/// The bytes that a string of hexadecimal digit pairs denotes.
pub open spec fn bytes_of_hex(s: Seq<char>) -> Seq<u8>
    decreases s.len(),
{
    if s.len() < 2 {
        Seq::empty()
    } else {
        seq![(hex_value(s[0]) * 16 + hex_value(s[1])) as u8] + bytes_of_hex(s.skip(2))
    }
}

/// `s` is the text of a digest: 64 hexadecimal digits of either case.
pub open spec fn is_digest_text(s: Seq<char>) -> bool {
    s.len() == 64 && forall|i: int| 0 <= i < s.len() ==> is_hex_char(#[trigger] s[i])
}

/// Relies on `hex::encode`: two lowercase digits per byte, high nibble first.
#[verifier::external_body]
fn hex_encode(d: &[u8; 32]) -> (r: String)
    ensures
        r@ == hex_of(d@),
{
    hex::encode(d)
}

/// Relies on `FromHex for [u8; 32]` (through `hex::decode_to_slice`): it
/// succeeds exactly on 64 hexadecimal digits of either case, and byte `i` is
/// digits `2i` and `2i + 1` read as high and low nibble.
#[verifier::external_body]
fn hex_decode(s: &str) -> (r: Result<[u8; 32], FromHexError>)
    ensures
        r is Ok <==> is_digest_text(s@),
        r matches Ok(d) ==> d@ == bytes_of_hex(s@),
{
    <[u8; 32]>::from_hex(s)
}

/// The text of a digest.
pub fn digest_to_hex(d: &[u8; 32]) -> (r: String)
    ensures
        r@ == hex_of(d@),
{
    hex_encode(d)
}

/// Reads a digest from its text; fails unless `s` is exactly 64
/// hexadecimal digits.
pub fn digest_from_hex(s: &str) -> (r: Result<[u8; 32], FromHexError>)
    ensures
        r is Ok <==> is_digest_text(s@),
        r matches Ok(d) ==> d@ == bytes_of_hex(s@),
{
    hex_decode(s)
}

proof fn lemma_hex_char(v: nat)
    requires
        v < 16,
    ensures
        is_hex_char(hex_char(v)),
        hex_value(hex_char(v)) == v,
{
    if v < 10 {
        assert(hex_char(v) as int == v + 48);
    } else {
        assert(hex_char(v) as int == v + 87);
    }
}

proof fn lemma_hex_of(b: Seq<u8>)
    ensures
        hex_of(b).len() == 2 * b.len(),
        forall|i: int| 0 <= i < hex_of(b).len() ==> is_hex_char(#[trigger] hex_of(b)[i]),
        bytes_of_hex(hex_of(b)) == b,
    decreases b.len(),
{
    if b.len() > 0 {
        let hi = b[0] as nat / 16;
        let lo = b[0] as nat % 16;
        lemma_hex_char(hi);
        lemma_hex_char(lo);
        lemma_hex_of(b.drop_first());
        let h = hex_of(b);
        let t = hex_of(b.drop_first());
        assert(h.skip(2) =~= t);
        assert forall|i: int| 0 <= i < h.len() implies is_hex_char(#[trigger] h[i]) by {
            if i >= 2 {
                assert(h[i] == t[i - 2]);
            }
        }
        assert((hi * 16 + lo) as u8 == b[0]);
        assert(bytes_of_hex(h) =~= b);
    } else {
        assert(bytes_of_hex(hex_of(b)) =~= b);
    }
}

/// A digest's text reads back as the same 32 bytes, and it is exactly the
/// text that reading accepts: 64 hexadecimal digits.
pub proof fn lemma_digest_round_trip(d: Seq<u8>)
    requires
        d.len() == 32,
    ensures
        is_digest_text(hex_of(d)),
        bytes_of_hex(hex_of(d)) == d,
{
    lemma_hex_of(d);
}

/// A text of any length other than 64 characters is no digest.
pub proof fn lemma_digest_text_length(s: Seq<char>)
    requires
        s.len() != 64,
    ensures
        !is_digest_text(s),
{
}

} // verus!
