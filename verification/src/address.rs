//! The server address: the 16-byte destination hash, written as 32 hex
//! digits. The server prints it, and the client is given it back.

use vstd::prelude::*;
use vstd::utf8::{encode_utf8, is_ascii_chars, is_ascii_chars_encode_utf8};

verus! {

/// Number of bytes in a destination hash.
pub const HASH_LEN: usize = 16;

/// The value of a hex digit (either case), if `c` is one.
pub open spec fn hex_value(c: u8) -> Option<u8> {
    if 48 <= c <= 57 {
        Some((c - 48) as u8)
    } else if 97 <= c <= 102 {
        Some((c - 97 + 10) as u8)
    } else if 65 <= c <= 70 {
        Some((c - 65 + 10) as u8)
    } else {
        None
    }
}

/// The bytes that pairs of hex digits denote, if every byte is a hex digit.
pub open spec fn hex_pairs(s: Seq<u8>) -> Option<Seq<u8>>
    decreases s.len(),
{
    if s.len() < 2 {
        Some(Seq::empty())
    } else {
        match (hex_value(s[0]), hex_value(s[1]), hex_pairs(s.skip(2))) {
            (Some(h), Some(l), Some(r)) => Some(seq![(h * 16 + l) as u8] + r),
            _ => None,
        }
    }
}

/// What decoding the hex text `s` gives: `None` for an odd length or for a
/// byte that is not a hex digit.
pub open spec fn hex_decode_spec(s: Seq<u8>) -> Option<Seq<u8>> {
    if s.len() % 2 != 0 {
        None
    } else {
        hex_pairs(s)
    }
}

/// The lower-case hex digit of a value below 16.
pub open spec fn lower_digit(v: u8) -> char {
    if v < 10 {
        (v + 48) as char
    } else {
        (v - 10 + 97) as char
    }
}

/// The lower-case hex text of `b`, two digits per byte, high nibble first.
pub open spec fn hex_lower_spec(b: Seq<u8>) -> Seq<char>
    decreases b.len(),
{
    if b.len() == 0 {
        Seq::empty()
    } else {
        seq![lower_digit(b[0] / 16), lower_digit(b[0] % 16)] + hex_lower_spec(b.drop_first())
    }
}

/// Declares `hex::FromHexError` to the verifier (opaque).
#[verifier::external_type_specification]
#[verifier::external_body]
pub struct ExFromHexError(hex::FromHexError);

/// `hex::decode`: fails on an odd number of digits or on a byte that is not
/// a hex digit of either case, and otherwise yields one byte per pair of
/// digits, high nibble first.
#[verifier::external_body]
fn hex_decode(data: &[u8]) -> (r: Result<Vec<u8>, hex::FromHexError>)
    ensures
        r is Ok <==> hex_decode_spec(data@) is Some,
        r matches Ok(v) ==> hex_decode_spec(data@) == Some(v@),
{
    hex::decode(data)
}

/// `hex::encode`: the lower-case hex digits of the bytes, two per byte,
/// high nibble first.
#[verifier::external_body]
fn hex_encode(data: &[u8]) -> (r: String)
    ensures
        r@ == hex_lower_spec(data@),
{
    hex::encode(data)
}

/// The text of a server address: its 32 lower-case hex digits.
pub fn format_address(hash: &[u8; 16]) -> (s: String)
    ensures
        s@ == hex_lower_spec(hash@),
        s@.len() == 2 * HASH_LEN,
{
    proof {
        lemma_hex_lower_ascii(hash@);
    }
    hex_encode(hash.as_slice())
}

/// The destination hash that the text `s` names: `Some` exactly when the
/// text decodes as hex (`hex_decode_spec` of its UTF-8 bytes) to 16 bytes.
pub fn parse_address(s: &str) -> (r: Option<[u8; 16]>)
    ensures
        match hex_decode_spec(encode_utf8(s@)) {
            Some(v) => if v.len() == HASH_LEN {
                r matches Some(a) && a@ == v
            } else {
                r is None
            },
            None => r is None,
        },
{
    let v = match hex_decode(s.as_bytes()) {
        Ok(v) => v,
        Err(_) => return None,
    };
    if v.len() != HASH_LEN {
        return None;
    }
    let mut a = [0u8; 16];
    let mut i: usize = 0;
    while i < HASH_LEN
        invariant
            i <= HASH_LEN,
            v@.len() == HASH_LEN,
            a@.len() == HASH_LEN,
            forall|j: int| 0 <= j < i ==> a@[j] == v@[j],
        decreases HASH_LEN - i,
    {
        a[i] = v[i];
        i = i + 1;
    }
    assert(a@ =~= v@);
    Some(a)
}

/// The lower-case hex text of any bytes is ASCII, two characters per byte.
proof fn lemma_hex_lower_ascii(b: Seq<u8>)
    ensures
        is_ascii_chars(hex_lower_spec(b)),
        hex_lower_spec(b).len() == 2 * b.len(),
    decreases b.len(),
{
    if b.len() > 0 {
        lemma_hex_lower_ascii(b.drop_first());
        let h = hex_lower_spec(b);
        let t = hex_lower_spec(b.drop_first());
        assert forall|i| 0 <= i < h.len() implies '\0' <= #[trigger] h[i] <= '\u{7f}' by {
            if i >= 2 {
                assert(h[i] == t[i - 2]);
            }
        }
    }
}

/// The bytes of the lower-case hex text of `b` decode back to `b`.
proof fn lemma_hex_lower_pairs(b: Seq<u8>, e: Seq<u8>)
    requires
        e.len() == 2 * b.len(),
        forall|i| 0 <= i < e.len() ==> #[trigger] e[i] == hex_lower_spec(b)[i] as u8,
    ensures
        hex_pairs(e) == Some(b),
    decreases b.len(),
{
    if b.len() == 0 {
        assert(hex_pairs(e) == Some(Seq::<u8>::empty()));
        assert(b =~= Seq::<u8>::empty());
    } else {
        let h = hex_lower_spec(b);
        let t = hex_lower_spec(b.drop_first());
        lemma_hex_lower_ascii(b.drop_first());
        let x = b[0];
        assert(e[0] == lower_digit(x / 16) as u8);
        assert(e[1] == lower_digit(x % 16) as u8);
        assert(hex_value(e[0]) == Some(x / 16));
        assert(hex_value(e[1]) == Some(x % 16));
        assert forall|i| 0 <= i < e.skip(2).len() implies #[trigger] e.skip(2)[i]
            == t[i] as u8 by {
            assert(e.skip(2)[i] == e[i + 2]);
            assert(h[i + 2] == t[i]);
        }
        lemma_hex_lower_pairs(b.drop_first(), e.skip(2));
        assert((x / 16) * 16 + x % 16 == x);
        assert(seq![x] + b.drop_first() =~= b);
    }
}

/// The address that the server prints reads back as the same hash.
pub proof fn lemma_address_roundtrip(hash: Seq<u8>)
    ensures
        hex_decode_spec(encode_utf8(hex_lower_spec(hash))) == Some(hash),
{
    let h = hex_lower_spec(hash);
    lemma_hex_lower_ascii(hash);
    is_ascii_chars_encode_utf8(h);
    let e = encode_utf8(h);
    lemma_hex_lower_pairs(hash, e);
    assert(e.len() % 2 == 0);
}

} // verus!
