use vstd::prelude::*;
use vstd::arithmetic::div_mod::lemma_fundamental_div_mod;
use vstd::utf8::*;

use crate::source::{be_u32_at, ByteSource, DecodeError};

verus! {

/// The code units of `b` taken two bytes at a time, big-endian; an odd last
/// byte is left out.
pub open spec fn be_units(b: Seq<u8>) -> Seq<u16> {
    Seq::new((b.len() / 2) as nat, |i: int| (b[2 * i] * 256 + b[2 * i + 1]) as u16)
}

pub open spec fn is_high_surrogate(u: u16) -> bool {
    0xD800 <= u < 0xDC00
}

pub open spec fn is_low_surrogate(u: u16) -> bool {
    0xDC00 <= u < 0xE000
}

/// The scalar value that a surrogate pair stands for.
pub open spec fn surrogate_pair_value(hi: u16, lo: u16) -> u32 {
    (0x10000 + (hi - 0xD800) * 1024 + (lo - 0xDC00)) as u32
}

/// Strict UTF-16 decoding: `None` on a surrogate that is not part of a pair.
pub open spec fn utf16_decode(u: Seq<u16>) -> Option<Seq<char>>
    decreases u.len(),
{
    if u.len() == 0 {
        Some(Seq::empty())
    } else if !is_high_surrogate(u[0]) && !is_low_surrogate(u[0]) {
        match utf16_decode(u.drop_first()) {
            Some(rest) => Some(seq![(u[0] as u32) as char] + rest),
            None => None,
        }
    } else if is_high_surrogate(u[0]) && u.len() >= 2 && is_low_surrogate(u[1]) {
        match utf16_decode(u.subrange(2, u.len() as int)) {
            Some(rest) => Some(seq![surrogate_pair_value(u[0], u[1]) as char] + rest),
            None => None,
        }
    } else {
        None
    }
}

/// The UTF-16 code units of one character.
pub open spec fn char_units(c: char) -> Seq<u16> {
    let v = c as u32;
    if v < 0x10000 {
        seq![v as u16]
    } else {
        seq![(0xD800 + (v - 0x10000) / 1024) as u16, (0xDC00 + (v - 0x10000) % 1024) as u16]
    }
}

/// UTF-16 encoding of a character sequence.
pub open spec fn utf16_encode(s: Seq<char>) -> Seq<u16>
    decreases s.len(),
{
    if s.len() == 0 {
        Seq::empty()
    } else {
        char_units(s[0]) + utf16_encode(s.drop_first())
    }
}

/// What lossy UTF-8 decoding makes of `b`.
pub uninterp spec fn utf8_lossy_of(b: Seq<u8>) -> Seq<char>;

/// Relies on `String::from_utf8`: it succeeds exactly on valid UTF-8, with the
/// characters that the bytes encode.
#[verifier::external_body]
fn utf8_strict(bytes: Vec<u8>) -> (r: Option<String>)
    ensures
        valid_utf8(bytes@) ==> r is Some && r->Some_0@ == decode_utf8(bytes@),
        !valid_utf8(bytes@) ==> r is None,
{
    String::from_utf8(bytes).ok()
}

/// Relies on `String::from_utf8_lossy`: valid UTF-8 is decoded as it is, and
/// every other sequence is replaced, so that only empty input gives empty text.
#[verifier::external_body]
fn utf8_lossy(bytes: &Vec<u8>) -> (r: String)
    ensures
        r@ == utf8_lossy_of(bytes@),
        valid_utf8(bytes@) ==> r@ == decode_utf8(bytes@),
        r@.len() == 0 <==> bytes@.len() == 0,
{
    String::from_utf8_lossy(bytes).into_owned()
}

/// Relies on `char::decode_utf16`, collected into a `Result`: it fails on the
/// first unpaired surrogate and otherwise gives the characters in order.
#[verifier::external_body]
fn utf16_strict(units: &Vec<u16>) -> (r: Option<String>)
    ensures
        utf16_decode(units@) matches Some(t) ==> r is Some && r->Some_0@ == t,
        utf16_decode(units@) is None ==> r is None,
{
    std::char::decode_utf16(units.iter().copied()).collect::<Result<String, _>>().ok()
}

/// Relies on `str::encode_utf16`: the UTF-16 code units of the text, in order.
#[verifier::external_body]
fn utf16_units(s: &str) -> (r: Vec<u16>)
    ensures
        r@ == utf16_encode(s@),
{
    s.encode_utf16().collect()
}

/// Decodes text of a request's path: never fails.
pub fn decode_lossy(bytes: &Vec<u8>) -> (r: String)
    ensures
        r@ == utf8_lossy_of(bytes@),
        valid_utf8(bytes@) ==> r@ == decode_utf8(bytes@),
        r@.len() == 0 <==> bytes@.len() == 0,
{
    utf8_lossy(bytes)
}

/// The text that a field's payload holds in the given encoding, if it is valid.
pub open spec fn text_spec(b: Seq<u8>, utf16: bool) -> Option<Seq<char>> {
    if !utf16 {
        if valid_utf8(b) {
            Some(decode_utf8(b))
        } else {
            None
        }
    } else if b.len() % 2 == 1 {
        None
    } else {
        utf16_decode(be_units(b))
    }
}

/// A length-prefixed text field at `pos`: the text and the position after it.
pub open spec fn string_field(s: Seq<u8>, pos: int, utf16: bool) -> Result<
    (Seq<char>, int),
    DecodeError,
> {
    if pos + 4 > s.len() {
        Err(DecodeError::TruncatedStream)
    } else {
        let n = be_u32_at(s, pos);
        if n == 0 {
            Ok((Seq::empty(), pos + 4))
        } else if pos + 4 + n > s.len() {
            Err(DecodeError::TruncatedStream)
        } else {
            match text_spec(s.subrange(pos + 4, pos + 4 + n), utf16) {
                Some(t) => Ok((t, pos + 4 + n)),
                None => Err(DecodeError::InvalidText),
            }
        }
    }
}

/// Groups bytes into big-endian 16-bit code units.
pub fn bytes_to_units(b: &Vec<u8>) -> (r: Vec<u16>)
    ensures
        r@ == be_units(b@),
{
    let len = b.len();
    let n = len / 2;
    let mut r: Vec<u16> = Vec::new();
    let mut i: usize = 0;
    let mut j: usize = 0;
    while i < n
        invariant
            len == b@.len(),
            n == len / 2,
            2 * n <= len,
            i <= n,
            j == 2 * i,
            r@ =~= be_units(b@).subrange(0, i as int),
        decreases n - i,
    {
        let u = (b[j] as u16) * 256 + (b[j + 1] as u16);
        r.push(u);
        i = i + 1;
        j = j + 2;
    }
    assert(r@ =~= be_units(b@));
    r
}

/// Decodes a field's payload strictly in the given encoding.
pub fn decode_text(b: Vec<u8>, is_utf16: bool) -> (r: Option<String>)
    ensures
        text_spec(b@, is_utf16) matches Some(t) ==> r is Some && r->Some_0@ == t,
        text_spec(b@, is_utf16) is None ==> r is None,
{
    if !is_utf16 {
        utf8_strict(b)
    } else if b.len() % 2 == 1 {
        None
    } else {
        let units = bytes_to_units(&b);
        utf16_strict(&units)
    }
}

/// Reads a text field: a big-endian 32-bit byte length, then that many bytes
/// of UTF-8, or of UTF-16 (big-endian) when `is_utf16`.
pub fn read_buss_string(stream: &mut ByteSource, is_utf16: bool) -> (r: Result<String, DecodeError>)
    requires
        old(stream).wf(),
    ensures
        final(stream).wf(),
        final(stream).bytes() == old(stream).bytes(),
        string_field(old(stream).bytes(), old(stream).pos(), is_utf16) matches Ok((t, p)) ==> r is Ok
            && r->Ok_0@ == t && final(stream).pos() == p,
        string_field(old(stream).bytes(), old(stream).pos(), is_utf16) matches Err(e) ==> r == Err::<
            String,
            DecodeError,
        >(e),
{
    let length = match stream.read_u32() {
        Ok(n) => n,
        Err(e) => return Err(e),
    };
    if length == 0 {
        return Ok(String::new());
    }
    let buf = match stream.read_exact(length as usize) {
        Ok(b) => b,
        Err(e) => return Err(e),
    };
    match decode_text(buf, is_utf16) {
        Some(s) => Ok(s),
        None => Err(DecodeError::InvalidText),
    }
}

/// The four big-endian bytes of `n`.
pub open spec fn u32_be_bytes(n: u32) -> Seq<u8> {
    seq![(n / 16777216) as u8, ((n / 65536) % 256) as u8, ((n / 256) % 256) as u8, (n % 256) as u8]
}

/// Code units written two bytes each, big-endian.
pub open spec fn units_be_bytes(u: Seq<u16>) -> Seq<u8> {
    Seq::new(
        2 * u.len(),
        |i: int|
            if i % 2 == 0 {
                (u[i / 2] / 256) as u8
            } else {
                (u[i / 2] % 256) as u8
            },
    )
}

/// The payload bytes of a text field holding `t`.
pub open spec fn text_payload(t: Seq<char>, utf16: bool) -> Seq<u8> {
    if utf16 {
        units_be_bytes(utf16_encode(t))
    } else {
        encode_utf8(t)
    }
}

/// A whole text field holding `t`: its length prefix, then its payload.
pub open spec fn field_encoding(t: Seq<char>, utf16: bool) -> Seq<u8> {
    u32_be_bytes(text_payload(t, utf16).len() as u32) + text_payload(t, utf16)
}

/// Encodes a text field: a big-endian 32-bit byte length, then the text in
/// UTF-8, or in UTF-16 (big-endian) when `is_utf16`. `None` when the encoded
/// text is too long for its length prefix.
pub fn encode_buss_string(text: &str, is_utf16: bool) -> (r: Option<Vec<u8>>)
    ensures
        r is Some <==> text_payload(text@, is_utf16).len() <= u32::MAX,
        r matches Some(v) ==> v@ == field_encoding(text@, is_utf16),
{
    let mut payload: Vec<u8> = Vec::new();
    if is_utf16 {
        let units = utf16_units(text);
        let mut i: usize = 0;
        while i < units.len()
            invariant
                i <= units@.len(),
                units@ == utf16_encode(text@),
                payload@ =~= units_be_bytes(units@).subrange(0, 2 * i),
            decreases units@.len() - i,
        {
            let u = units[i];
            payload.push((u / 256) as u8);
            payload.push((u % 256) as u8);
            i = i + 1;
        }
        assert(payload@ =~= units_be_bytes(units@));
    } else {
        let b = text.as_bytes();
        let mut i: usize = 0;
        while i < b.len()
            invariant
                i <= b@.len(),
                b@ == encode_utf8(text@),
                payload@ =~= b@.subrange(0, i as int),
            decreases b@.len() - i,
        {
            payload.push(b[i]);
            i = i + 1;
        }
        assert(payload@ =~= b@);
    }
    if payload.len() > 0xFFFF_FFFF {
        return None;
    }
    let n = payload.len() as u32;
    let mut out: Vec<u8> = Vec::new();
    out.push((n / 16777216) as u8);
    out.push(((n / 65536) % 256) as u8);
    out.push(((n / 256) % 256) as u8);
    out.push((n % 256) as u8);
    out.append(&mut payload);
    assert(out@ =~= field_encoding(text@, is_utf16));
    Some(out)
}

/// Reading back the four big-endian bytes of `n` gives `n`.
pub proof fn lemma_u32_be_bytes(n: u32)
    ensures
        be_u32_at(u32_be_bytes(n), 0) == n,
{
    let q1 = n / 256;
    let q2 = q1 / 256;
    lemma_fundamental_div_mod(n as int, 256);
    lemma_fundamental_div_mod(q1 as int, 256);
    lemma_fundamental_div_mod(q2 as int, 256);
    assert(n / 65536 == q2) by {
        vstd::arithmetic::div_mod::lemma_div_denominator(n as int, 256, 256);
    }
    assert(n / 16777216 == q2 / 256) by {
        vstd::arithmetic::div_mod::lemma_div_denominator(n as int, 65536, 256);
    }
}

proof fn lemma_units_round_trip(u: Seq<u16>)
    ensures
        be_units(units_be_bytes(u)) =~= u,
{
    let b = units_be_bytes(u);
    assert forall|k: int| 0 <= k < u.len() implies be_units(b)[k] == u[k] by {
        assert((2 * k) / 2 == k && (2 * k) % 2 == 0);
        assert((2 * k + 1) / 2 == k && (2 * k + 1) % 2 == 1);
        lemma_fundamental_div_mod(u[k] as int, 256);
    }
}

proof fn lemma_utf16_round_trip(t: Seq<char>)
    ensures
        utf16_decode(utf16_encode(t)) == Some(t),
    decreases t.len(),
{
    if t.len() > 0 {
        let c = t[0];
        let v = c as u32;
        let rest = t.drop_first();
        let u = utf16_encode(t);
        lemma_utf16_round_trip(rest);
        char_is_scalar(c);
        char_u32_cast(c, v);
        if v < 0x10000 {
            assert(u.drop_first() =~= utf16_encode(rest));
            assert(seq![c] + rest =~= t);
        } else {
            let w = v - 0x10000;
            lemma_fundamental_div_mod(w as int, 1024);
            assert(surrogate_pair_value(u[0], u[1]) == v);
            assert(u.subrange(2, u.len() as int) =~= utf16_encode(rest));
            assert(seq![c] + rest =~= t);
        }
    }
}

/// Decoding a text field written for `text` gives `text` back, in either
/// encoding, and ends exactly where the field ends, whatever follows it.
pub proof fn lemma_string_round_trip(text: Seq<char>, is_utf16: bool, rest: Seq<u8>)
    requires
        text_payload(text, is_utf16).len() <= u32::MAX,
    ensures
        string_field(field_encoding(text, is_utf16) + rest, 0, is_utf16) == Ok::<
            (Seq<char>, int),
            DecodeError,
        >((text, field_encoding(text, is_utf16).len() as int)),
{
    broadcast use encode_utf8_valid_utf8, encode_utf8_decode_utf8;

    let p = text_payload(text, is_utf16);
    let f = field_encoding(text, is_utf16);
    let s = f + rest;
    lemma_u32_be_bytes(p.len() as u32);
    assert(be_u32_at(s, 0) == be_u32_at(u32_be_bytes(p.len() as u32), 0));
    assert(s.subrange(4, 4 + p.len() as int) =~= p);
    if is_utf16 {
        lemma_units_round_trip(utf16_encode(text));
        lemma_utf16_round_trip(text);
        assert(p.len() % 2 == 0);
    }
    assert(text_spec(p, is_utf16) == Some(text));
    if p.len() == 0 {
        assert(p =~= Seq::<u8>::empty());
        assert(be_units(p) =~= Seq::<u16>::empty());
        assert(text =~= Seq::<char>::empty());
    }
}

} // verus!
