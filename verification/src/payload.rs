//! The payload of a CONNECT frame: the UTF-8 text `host:port`, with the
//! port written in decimal.

use vstd::prelude::*;
use vstd::utf8::{decode_utf8, encode_utf8, encode_utf8_decode_utf8, encode_utf8_valid_utf8, valid_utf8};

verus! {

/// ASCII code of `:`.
pub const COLON: u8 = 58;

/// Whether a byte is an ASCII decimal digit.
pub open spec fn is_digit(b: u8) -> bool {
    48 <= b <= 57
}

/// Whether every byte of `s` is an ASCII decimal digit.
pub open spec fn all_digits(s: Seq<u8>) -> bool {
    forall|i: int| 0 <= i < s.len() ==> is_digit(#[trigger] s[i])
}

/// The number that a string of decimal digits denotes.
pub open spec fn digits_value(s: Seq<u8>) -> nat
    decreases s.len(),
{
    if s.len() == 0 {
        0
    } else {
        digits_value(s.drop_last()) * 10 + (s.last() - 48) as nat
    }
}

/// The shortest decimal digits of `n`.
pub open spec fn decimal_ascii(n: nat) -> Seq<u8>
    decreases n,
{
    if n < 10 {
        seq![(n + 48) as u8]
    } else {
        decimal_ascii(n / 10) + seq![(n % 10 + 48) as u8]
    }
}

/// The port that the text `s` denotes: one or more decimal digits whose
/// value is at most 65535 (leading zeros allowed).
pub open spec fn parse_port_spec(s: Seq<u8>) -> Option<u16> {
    if s.len() > 0 && all_digits(s) && digits_value(s) <= 65535 {
        Some(digits_value(s) as u16)
    } else {
        None
    }
}

/// The index of the last `:` in `s`, or -1 when there is none.
pub open spec fn last_colon(s: Seq<u8>) -> int
    decreases s.len(),
{
    if s.len() == 0 {
        -1
    } else if s.last() == COLON {
        s.len() - 1
    } else {
        last_colon(s.drop_last())
    }
}

/// The CONNECT payload for `host` and `port`.
pub open spec fn connect_payload_spec(host: Seq<char>, port: u16) -> Seq<u8> {
    encode_utf8(host) + seq![COLON] + decimal_ascii(port as nat)
}

/// What a CONNECT payload asks for: it is split at its last `:`; the part
/// before must be valid UTF-8 (the host, possibly empty) and the part after
/// a port as `parse_port_spec` reads it.
pub open spec fn decode_connect_spec(b: Seq<u8>) -> Option<(Seq<char>, u16)> {
    let i = last_colon(b);
    if i < 0 {
        None
    } else if !valid_utf8(b.take(i)) {
        None
    } else {
        match parse_port_spec(b.skip(i + 1)) {
            Some(p) => Some((decode_utf8(b.take(i)), p)),
            None => None,
        }
    }
}

/// Declares `core::str::Utf8Error` to the verifier (opaque).
#[verifier::external_type_specification]
#[verifier::external_body]
pub struct ExUtf8Error(core::str::Utf8Error);

/// `core::str::from_utf8`: as std documents it, it succeeds exactly when the
/// bytes are valid UTF-8, and then the string holds exactly those bytes.
#[verifier::external_body]
fn str_from_utf8(bytes: &[u8]) -> (r: Result<&str, core::str::Utf8Error>)
    ensures
        r is Ok <==> valid_utf8(bytes@),
        r matches Ok(s) ==> s@ == decode_utf8(bytes@),
{
    core::str::from_utf8(bytes)
}

/// Appends the decimal digits of `n` to `out`.
fn push_decimal(out: &mut Vec<u8>, n: u16)
    ensures
        final(out)@ == old(out)@ + decimal_ascii(n as nat),
    decreases n,
{
    if n >= 10 {
        push_decimal(out, n / 10);
    }
    out.push((n % 10) as u8 + 48);
    assert(final(out)@ =~= old(out)@ + decimal_ascii(n as nat));
}

/// The CONNECT payload for `host` and `port`: `host:port` in UTF-8.
pub fn encode_connect_payload(host: &str, port: u16) -> (payload: Vec<u8>)
    ensures
        payload@ == connect_payload_spec(host@, port),
{
    let mut out = vstd::slice::slice_to_vec(host.as_bytes());
    out.push(COLON);
    push_decimal(&mut out, port);
    out
}

/// The index of the last `:` in `s`, if any.
fn find_last_colon(s: &[u8]) -> (r: Option<usize>)
    ensures
        r is None <==> last_colon(s@) < 0,
        r matches Some(i) ==> i == last_colon(s@) && i < s@.len(),
{
    let mut k: usize = s.len();
    assert(s@.take(s@.len() as int) =~= s@);
    while k > 0
        invariant
            k <= s@.len(),
            last_colon(s@) == last_colon(s@.take(k as int)),
        decreases k,
    {
        let ghost t = s@.take(k as int);
        assert(t.drop_last() =~= s@.take(k - 1));
        if s[k - 1] == COLON {
            return Some(k - 1);
        }
        k = k - 1;
    }
    assert(s@.take(0) =~= Seq::<u8>::empty());
    None
}

/// The port that the ASCII text `s` denotes, as `parse_port_spec` says.
pub fn parse_port(s: &[u8]) -> (r: Option<u16>)
    ensures
        r == parse_port_spec(s@),
{
    if s.len() == 0 {
        return None;
    }
    let mut value: u32 = 0;
    let mut k: usize = 0;
    assert(s@.take(0) =~= Seq::<u8>::empty());
    while k < s.len()
        invariant
            k <= s@.len(),
            all_digits(s@.take(k as int)),
            value == digits_value(s@.take(k as int)),
            value <= 65535,
        decreases s@.len() - k,
    {
        let b = s[k];
        let ghost t = s@.take(k + 1);
        assert(t.drop_last() =~= s@.take(k as int));
        if b < 48 || b > 57 {
            assert(!all_digits(s@)) by {
                assert(!is_digit(s@[k as int]));
            }
            return None;
        }
        let next = value * 10 + (b - 48) as u32;
        if next > 65535 {
            proof {
                if all_digits(s@) {
                    lemma_digits_value_prefix(s@, k + 1);
                }
            }
            return None;
        }
        value = next;
        k = k + 1;
    }
    assert(s@.take(s@.len() as int) =~= s@);
    Some(value as u16)
}

/// The value of the digits grows with every digit added.
proof fn lemma_digits_value_prefix(s: Seq<u8>, k: int)
    requires
        0 <= k <= s.len(),
        all_digits(s),
    ensures
        digits_value(s.take(k)) <= digits_value(s),
    decreases s.len() - k,
{
    if k < s.len() {
        lemma_digits_value_prefix(s, k + 1);
        assert(s.take(k + 1).drop_last() =~= s.take(k));
        assert(is_digit(s[k]));
    } else {
        assert(s.take(k) =~= s);
    }
}

/// What a CONNECT payload asks for, as `decode_connect_spec` says: the host
/// and port, or `None` for a payload that does not hold one.
pub fn decode_connect_payload(payload: &[u8]) -> (r: Option<(String, u16)>)
    ensures
        match decode_connect_spec(payload@) {
            Some((host, port)) => r matches Some((h, p)) && h@ == host && p == port,
            None => r is None,
        },
{
    let i = match find_last_colon(payload) {
        Some(i) => i,
        None => return None,
    };
    let n = payload.len();
    assert(i < n);
    let port = match parse_port(vstd::slice::slice_subrange(payload, i + 1, n)) {
        Some(p) => p,
        None => {
            assert(payload@.subrange(i + 1, payload@.len() as int) =~= payload@.skip(i + 1));
            return None;
        },
    };
    assert(payload@.subrange(i + 1, payload@.len() as int) =~= payload@.skip(i + 1));
    let host_bytes = vstd::slice::slice_subrange(payload, 0, i);
    assert(host_bytes@ =~= payload@.take(i as int));
    match str_from_utf8(host_bytes) {
        Ok(host) => Some((host.to_owned(), port)),
        Err(_) => None,
    }
}

/// Decimal digits read back as the number they were written from.
proof fn lemma_decimal_ascii(n: nat)
    ensures
        all_digits(decimal_ascii(n)),
        decimal_ascii(n).len() > 0,
        digits_value(decimal_ascii(n)) == n,
    decreases n,
{
    let d = decimal_ascii(n);
    if n >= 10 {
        lemma_decimal_ascii(n / 10);
        assert(d.drop_last() =~= decimal_ascii(n / 10));
        assert(((n % 10 + 48) as u8) - 48 == n % 10);
        assert((n / 10) * 10 + n % 10 == n);
    } else {
        assert(d.drop_last() =~= Seq::<u8>::empty());
        assert(digits_value(d.drop_last()) == 0);
    }
}

/// No `:` after a `:`: the last one is the one written.
proof fn lemma_last_colon_suffix(a: Seq<u8>, d: Seq<u8>)
    requires
        all_digits(d),
    ensures
        last_colon(a + seq![COLON] + d) == a.len(),
    decreases d.len(),
{
    let s = a + seq![COLON] + d;
    if d.len() > 0 {
        assert(s.drop_last() =~= a + seq![COLON] + d.drop_last());
        assert(is_digit(d[d.len() - 1]));
        lemma_last_colon_suffix(a, d.drop_last());
    } else {
        assert(s.last() == COLON);
    }
}

/// A CONNECT payload built from a host and a port reads back as that host
/// and that port, whatever the host holds (a `:` too).
pub proof fn lemma_connect_payload_roundtrip(host: Seq<char>, port: u16)
    ensures
        decode_connect_spec(connect_payload_spec(host, port)) == Some((host, port)),
{
    let e = encode_utf8(host);
    let d = decimal_ascii(port as nat);
    let b = connect_payload_spec(host, port);
    lemma_decimal_ascii(port as nat);
    lemma_last_colon_suffix(e, d);
    assert(b.take(e.len() as int) =~= e);
    assert(b.skip(e.len() + 1int) =~= d);
    encode_utf8_valid_utf8(host);
    encode_utf8_decode_utf8(host);
}

/// The last colon found is a colon of the payload.
proof fn lemma_last_colon_bounds(s: Seq<u8>)
    ensures
        -1 <= last_colon(s) < s.len(),
        last_colon(s) >= 0 ==> s[last_colon(s)] == COLON,
    decreases s.len(),
{
    if s.len() > 0 && s.last() != COLON {
        lemma_last_colon_bounds(s.drop_last());
    }
}

/// Whatever a payload is read as, it is exactly that host in UTF-8, a colon,
/// and decimal digits whose value is that port: nothing else is accepted.
pub proof fn lemma_connect_payload_sound(b: Seq<u8>)
    ensures
        decode_connect_spec(b) matches Some((h, p)) ==> {
            let t = b.skip(encode_utf8(h).len() + 1int);
            &&& b == encode_utf8(h) + seq![COLON] + t
            &&& t.len() > 0
            &&& all_digits(t)
            &&& digits_value(t) == p
        },
{
    if let Some((h, p)) = decode_connect_spec(b) {
        let i = last_colon(b);
        lemma_last_colon_bounds(b);
        vstd::utf8::decode_utf8_encode_utf8(b.take(i));
        assert(encode_utf8(h) == b.take(i));
        assert(b =~= b.take(i) + seq![COLON] + b.skip(i + 1));
    }
}

} // verus!
