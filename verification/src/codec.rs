//! A stable binary serialization for everything the registry stores:
//! little-endian integers, character strings, path links, test records,
//! the test index, the resume cursor and the course metadata. Decoding is
//! specified exactly, so a corrupt entry is always detected rather than
//! misread.

use vstd::prelude::*;

verus! {

use crate::model::CourseMetaData;
use crate::model::PathLink;
use crate::model::TestState;
use crate::model::ValidationState;

// ---------------------------------------------------------------------
// Little-endian integers
// ---------------------------------------------------------------------
/// The four little-endian bytes of a 32-bit integer.
pub open spec fn enc_u32(v: u32) -> Seq<u8> {
    seq![
        (v & 0xff) as u8,
        ((v >> 8) & 0xff) as u8,
        ((v >> 16) & 0xff) as u8,
        ((v >> 24) & 0xff) as u8,
    ]
}

/// The 32-bit integer with the given little-endian bytes.
pub open spec fn u32_of_bytes(b0: u8, b1: u8, b2: u8, b3: u8) -> u32 {
    (b0 as u32) | ((b1 as u32) << 8) | ((b2 as u32) << 16) | ((b3 as u32) << 24)
}

/// The decoding of a 32-bit integer at a position: the value and the
/// position just past it, or nothing where fewer than four bytes remain.
pub open spec fn dec_u32_at(s: Seq<u8>, i: int) -> Option<(u32, int)> {
    if 0 <= i && i + 4 <= s.len() {
        Some((u32_of_bytes(s[i], s[i + 1], s[i + 2], s[i + 3]), i + 4))
    } else {
        None
    }
}

proof fn lemma_u32_round(v: u32)
    ensures
        u32_of_bytes(
            (v & 0xff) as u8,
            ((v >> 8) & 0xff) as u8,
            ((v >> 16) & 0xff) as u8,
            ((v >> 24) & 0xff) as u8,
        ) == v,
{
    assert(((v & 0xff) as u8 as u32) | (((v >> 8) & 0xff) as u8 as u32) << 8 | (((v >> 16)
        & 0xff) as u8 as u32) << 16 | (((v >> 24) & 0xff) as u8 as u32) << 24 == v)
        by (bit_vector);
}

/// Decoding the encoding of a 32-bit integer, wherever it stands in a
/// byte sequence, yields the integer back.
pub proof fn lemma_dec_enc_u32(s: Seq<u8>, i: int, v: u32)
    requires
        0 <= i,
        i + 4 <= s.len(),
        s.subrange(i, i + 4) == enc_u32(v),
    ensures
        dec_u32_at(s, i) == Some((v, i + 4)),
{
    assert(s[i] == enc_u32(v)[0]);
    assert(s[i + 1] == enc_u32(v)[1]);
    assert(s[i + 2] == enc_u32(v)[2]);
    assert(s[i + 3] == enc_u32(v)[3]);
    lemma_u32_round(v);
}

/// Appends the four little-endian bytes of a 32-bit integer.
pub fn encode_u32(out: &mut Vec<u8>, v: u32)
    ensures
        final(out)@ == old(out)@ + enc_u32(v),
{
    proof {
        assert(v & 0xff < 256 && (v >> 8) & 0xff < 256 && (v >> 16) & 0xff < 256 && (v >> 24)
            & 0xff < 256) by (bit_vector);
    }
    out.push((v & 0xff) as u8);
    out.push(((v >> 8) & 0xff) as u8);
    out.push(((v >> 16) & 0xff) as u8);
    out.push(((v >> 24) & 0xff) as u8);
    assert(final(out)@ =~= old(out)@ + enc_u32(v));
}

/// Reads a 32-bit little-endian integer at a position.
pub fn decode_u32(b: &Vec<u8>, pos: usize) -> (r: Option<(u32, usize)>)
    ensures
        match r {
            Some(p) => dec_u32_at(b@, pos as int) == Some((p.0, p.1 as int)),
            None => dec_u32_at(b@, pos as int) is None,
        },
{
    if b.len() < 4 || pos > b.len() - 4 {
        return None;
    }
    let v = (b[pos] as u32) | ((b[pos + 1] as u32) << 8) | ((b[pos + 2] as u32) << 16) | ((b[pos
        + 3] as u32) << 24);
    Some((v, pos + 4))
}

/// The eight little-endian bytes of a 64-bit integer.
pub open spec fn enc_u64(v: u64) -> Seq<u8> {
    seq![
        (v & 0xff) as u8,
        ((v >> 8) & 0xff) as u8,
        ((v >> 16) & 0xff) as u8,
        ((v >> 24) & 0xff) as u8,
        ((v >> 32) & 0xff) as u8,
        ((v >> 40) & 0xff) as u8,
        ((v >> 48) & 0xff) as u8,
        ((v >> 56) & 0xff) as u8,
    ]
}

/// The 64-bit integer with the given little-endian bytes.
pub open spec fn u64_of_bytes(b: Seq<u8>) -> u64
    recommends
        b.len() == 8,
{
    (b[0] as u64) | ((b[1] as u64) << 8) | ((b[2] as u64) << 16) | ((b[3] as u64) << 24) | ((
    b[4] as u64) << 32) | ((b[5] as u64) << 40) | ((b[6] as u64) << 48) | ((b[7] as u64) << 56)
}

/// The decoding of a 64-bit integer at a position.
pub open spec fn dec_u64_at(s: Seq<u8>, i: int) -> Option<(u64, int)> {
    if 0 <= i && i + 8 <= s.len() {
        Some((u64_of_bytes(s.subrange(i, i + 8)), i + 8))
    } else {
        None
    }
}

proof fn lemma_u64_round(v: u64)
    ensures
        u64_of_bytes(enc_u64(v)) == v,
{
    assert(((v & 0xff) as u8 as u64) | (((v >> 8) & 0xff) as u8 as u64) << 8 | (((v >> 16)
        & 0xff) as u8 as u64) << 16 | (((v >> 24) & 0xff) as u8 as u64) << 24 | (((v >> 32)
        & 0xff) as u8 as u64) << 32 | (((v >> 40) & 0xff) as u8 as u64) << 40 | (((v >> 48)
        & 0xff) as u8 as u64) << 48 | (((v >> 56) & 0xff) as u8 as u64) << 56 == v)
        by (bit_vector);
}

/// Decoding the encoding of a 64-bit integer yields the integer back.
pub proof fn lemma_dec_enc_u64(s: Seq<u8>, i: int, v: u64)
    requires
        0 <= i,
        i + 8 <= s.len(),
        s.subrange(i, i + 8) == enc_u64(v),
    ensures
        dec_u64_at(s, i) == Some((v, i + 8)),
{
    lemma_u64_round(v);
}

/// Appends the eight little-endian bytes of a 64-bit integer.
pub fn encode_u64(out: &mut Vec<u8>, v: u64)
    ensures
        final(out)@ == old(out)@ + enc_u64(v),
{
    proof {
        assert(v & 0xff < 256 && (v >> 8) & 0xff < 256 && (v >> 16) & 0xff < 256 && (v >> 24)
            & 0xff < 256 && (v >> 32) & 0xff < 256 && (v >> 40) & 0xff < 256 && (v >> 48) & 0xff
            < 256 && (v >> 56) & 0xff < 256) by (bit_vector);
    }
    out.push((v & 0xff) as u8);
    out.push(((v >> 8) & 0xff) as u8);
    out.push(((v >> 16) & 0xff) as u8);
    out.push(((v >> 24) & 0xff) as u8);
    out.push(((v >> 32) & 0xff) as u8);
    out.push(((v >> 40) & 0xff) as u8);
    out.push(((v >> 48) & 0xff) as u8);
    out.push(((v >> 56) & 0xff) as u8);
    assert(final(out)@ =~= old(out)@ + enc_u64(v));
}

/// Reads a 64-bit little-endian integer at a position.
pub fn decode_u64(b: &Vec<u8>, pos: usize) -> (r: Option<(u64, usize)>)
    ensures
        match r {
            Some(p) => dec_u64_at(b@, pos as int) == Some((p.0, p.1 as int)),
            None => dec_u64_at(b@, pos as int) is None,
        },
{
    if b.len() < 8 || pos > b.len() - 8 {
        return None;
    }
    let v = (b[pos] as u64) | ((b[pos + 1] as u64) << 8) | ((b[pos + 2] as u64) << 16) | ((b[pos
        + 3] as u64) << 24) | ((b[pos + 4] as u64) << 32) | ((b[pos + 5] as u64) << 40) | ((b[pos
        + 6] as u64) << 48) | ((b[pos + 7] as u64) << 56);
    proof {
        let sub = b@.subrange(pos as int, pos + 8);
        assert(sub[0] == b@[pos as int] && sub[1] == b@[pos + 1] && sub[2] == b@[pos + 2]
            && sub[3] == b@[pos + 3] && sub[4] == b@[pos + 4] && sub[5] == b@[pos + 5] && sub[6]
            == b@[pos + 6] && sub[7] == b@[pos + 7]);
    }
    Some((v, pos + 8))
}

/// A signed 64-bit timestamp, stored through its two's-complement bits.
pub open spec fn enc_i64(v: i64) -> Seq<u8> {
    enc_u64(v as u64)
}

/// The decoding of a signed 64-bit timestamp at a position.
pub open spec fn dec_i64_at(s: Seq<u8>, i: int) -> Option<(i64, int)> {
    match dec_u64_at(s, i) {
        Some(p) => Some(((p.0 as i64), p.1)),
        None => None,
    }
}

/// Decoding the encoding of a timestamp yields the timestamp back.
pub proof fn lemma_dec_enc_i64(s: Seq<u8>, i: int, v: i64)
    requires
        0 <= i,
        i + 8 <= s.len(),
        s.subrange(i, i + 8) == enc_i64(v),
    ensures
        dec_i64_at(s, i) == Some((v, i + 8)),
{
    lemma_dec_enc_u64(s, i, v as u64);
    assert((v as u64) as i64 == v) by (bit_vector);
}

/// Appends a signed 64-bit timestamp.
pub fn encode_i64(out: &mut Vec<u8>, v: i64)
    ensures
        final(out)@ == old(out)@ + enc_i64(v),
{
    encode_u64(out, v as u64);
}

/// Reads a signed 64-bit timestamp at a position.
pub fn decode_i64(b: &Vec<u8>, pos: usize) -> (r: Option<(i64, usize)>)
    ensures
        match r {
            Some(p) => dec_i64_at(b@, pos as int) == Some((p.0, p.1 as int)),
            None => dec_i64_at(b@, pos as int) is None,
        },
{
    match decode_u64(b, pos) {
        Some((v, end)) => Some((v as i64, end)),
        None => None,
    }
}

// ---------------------------------------------------------------------
// Booleans and enum tags
// ---------------------------------------------------------------------
/// One byte: 1 for true, 0 for false.
pub open spec fn enc_bool(v: bool) -> Seq<u8> {
    seq![if v { 1u8 } else { 0u8 }]
}

/// The decoding of a boolean at a position; any byte other than 0 or 1 is
/// refused.
pub open spec fn dec_bool_at(s: Seq<u8>, i: int) -> Option<(bool, int)> {
    if 0 <= i && i + 1 <= s.len() {
        if s[i] == 0u8 {
            Some((false, i + 1))
        } else if s[i] == 1u8 {
            Some((true, i + 1))
        } else {
            None
        }
    } else {
        None
    }
}

/// Appends a boolean byte.
pub fn encode_bool(out: &mut Vec<u8>, v: bool)
    ensures
        final(out)@ == old(out)@ + enc_bool(v),
{
    out.push(if v { 1u8 } else { 0u8 });
    assert(final(out)@ =~= old(out)@ + enc_bool(v));
}

/// Reads a boolean byte at a position.
pub fn decode_bool(b: &Vec<u8>, pos: usize) -> (r: Option<(bool, usize)>)
    ensures
        match r {
            Some(p) => dec_bool_at(b@, pos as int) == Some((p.0, p.1 as int)),
            None => dec_bool_at(b@, pos as int) is None,
        },
{
    if pos >= b.len() {
        return None;
    }
    if b[pos] == 0 {
        Some((false, pos + 1))
    } else if b[pos] == 1 {
        Some((true, pos + 1))
    } else {
        None
    }
}

/// One byte for a validation state, in declaration order.
pub open spec fn enc_vstate(v: ValidationState) -> Seq<u8> {
    match v {
        ValidationState::Unknown => seq![0u8],
        ValidationState::Pass => seq![1u8],
        ValidationState::Fail => seq![2u8],
    }
}

/// The decoding of a validation state at a position.
pub open spec fn dec_vstate_at(s: Seq<u8>, i: int) -> Option<(ValidationState, int)> {
    if 0 <= i && i + 1 <= s.len() {
        if s[i] == 0u8 {
            Some((ValidationState::Unknown, i + 1))
        } else if s[i] == 1u8 {
            Some((ValidationState::Pass, i + 1))
        } else if s[i] == 2u8 {
            Some((ValidationState::Fail, i + 1))
        } else {
            None
        }
    } else {
        None
    }
}

/// Appends a validation-state byte.
pub fn encode_vstate(out: &mut Vec<u8>, v: ValidationState)
    ensures
        final(out)@ == old(out)@ + enc_vstate(v),
{
    match v {
        ValidationState::Unknown => out.push(0u8),
        ValidationState::Pass => out.push(1u8),
        ValidationState::Fail => out.push(2u8),
    }
    assert(final(out)@ =~= old(out)@ + enc_vstate(v));
}

/// Reads a validation-state byte at a position.
pub fn decode_vstate(b: &Vec<u8>, pos: usize) -> (r: Option<(ValidationState, usize)>)
    ensures
        match r {
            Some(p) => dec_vstate_at(b@, pos as int) == Some((p.0, p.1 as int)),
            None => dec_vstate_at(b@, pos as int) is None,
        },
{
    if pos >= b.len() {
        return None;
    }
    if b[pos] == 0 {
        Some((ValidationState::Unknown, pos + 1))
    } else if b[pos] == 1 {
        Some((ValidationState::Pass, pos + 1))
    } else if b[pos] == 2 {
        Some((ValidationState::Fail, pos + 1))
    } else {
        None
    }
}

// ---------------------------------------------------------------------
// Characters and strings
// ---------------------------------------------------------------------
/// The code points that are Unicode scalar values: everything but the
/// surrogate range.
pub open spec fn valid_scalar(v: u32) -> bool {
    v < 0xD800 || (0xE000 <= v && v <= 0x10FFFF)
}

/// Relies on `char::from_u32`: `Some` exactly on valid Unicode scalar
/// values, and the returned character is the one with that code point.
pub assume_specification[ char::from_u32 ](v: u32) -> (r: Option<char>)
    ensures
        r is Some <==> valid_scalar(v),
        r matches Some(c) ==> c == v as char && c as u32 == v,
;

/// A character as the four little-endian bytes of its code point.
pub open spec fn enc_char(c: char) -> Seq<u8> {
    enc_u32(c as u32)
}

/// The decoding of a character at a position; a code point outside the
/// scalar range is refused.
pub open spec fn dec_char_at(s: Seq<u8>, i: int) -> Option<(char, int)> {
    match dec_u32_at(s, i) {
        Some(p) => if valid_scalar(p.0) {
            Some((p.0 as char, p.1))
        } else {
            None
        },
        None => None,
    }
}

/// Decoding the encoding of a character yields the character back.
pub proof fn lemma_dec_enc_char(s: Seq<u8>, i: int, c: char)
    requires
        0 <= i,
        i + 4 <= s.len(),
        s.subrange(i, i + 4) == enc_char(c),
    ensures
        dec_char_at(s, i) == Some((c, i + 4)),
{
    lemma_dec_enc_u32(s, i, c as u32);
    assert(valid_scalar(c as u32));
    assert((c as u32) as char == c);
}

/// Reads a character at a position.
pub fn decode_char(b: &Vec<u8>, pos: usize) -> (r: Option<(char, usize)>)
    ensures
        match r {
            Some(p) => dec_char_at(b@, pos as int) == Some((p.0, p.1 as int)),
            None => dec_char_at(b@, pos as int) is None,
        },
{
    match decode_u32(b, pos) {
        Some((v, end)) => match char::from_u32(v) {
            Some(c) => Some((c, end)),
            None => None,
        },
        None => None,
    }
}

/// The bytes of a string's characters, one code point each.
pub open spec fn enc_chars(s: Seq<char>) -> Seq<u8>
    decreases s.len(),
{
    if s.len() == 0 {
        Seq::empty()
    } else {
        enc_char(s[0]) + enc_chars(s.skip(1))
    }
}

/// A string: its length in characters, then its characters.
pub open spec fn enc_str(s: Seq<char>) -> Seq<u8> {
    enc_u32(s.len() as u32) + enc_chars(s)
}

/// Whether a string's length fits the 32-bit length field.
pub open spec fn str_encodable(s: Seq<char>) -> bool {
    s.len() <= 0xffff_ffffnat
}

/// Character bytes take four bytes per character.
pub proof fn lemma_enc_chars_len(s: Seq<char>)
    ensures
        enc_chars(s).len() == 4 * s.len(),
    decreases s.len(),
{
    if s.len() > 0 {
        lemma_enc_chars_len(s.skip(1));
    }
}

/// Encoding one more character extends the encoding of the prefix.
proof fn lemma_enc_chars_take(s: Seq<char>, i: int)
    requires
        0 <= i < s.len(),
    ensures
        enc_chars(s.take(i + 1)) == enc_chars(s.take(i)) + enc_char(s[i]),
    decreases i,
{
    if i == 0 {
        assert(s.take(1).skip(1) =~= Seq::<char>::empty());
        assert(s.take(1)[0] == s[0]);
        assert(enc_chars(Seq::<char>::empty()) =~= Seq::<u8>::empty());
        assert(enc_chars(s.take(1)) =~= enc_char(s[0]));
        assert(s.take(0) =~= Seq::<char>::empty());
        assert(enc_chars(s.take(0)) + enc_char(s[0]) =~= enc_char(s[0]));
    } else {
        lemma_enc_chars_take(s.skip(1), i - 1);
        assert(s.take(i + 1).skip(1) =~= s.skip(1).take(i));
        assert(s.take(i).skip(1) =~= s.skip(1).take(i - 1));
        assert(s.take(i + 1)[0] == s[0]);
        assert(s.take(i)[0] == s[0]);
        assert(s.skip(1)[i - 1] == s[i]);
        assert(enc_char(s[0]) + (enc_chars(s.skip(1).take(i - 1)) + enc_char(s[i])) =~= (enc_char(
            s[0],
        ) + enc_chars(s.skip(1).take(i - 1))) + enc_char(s[i]));
    }
}

/// A byte range that holds two encodings in a row splits into the two.
pub proof fn lemma_subrange_split(s: Seq<u8>, i: int, a: Seq<u8>, b: Seq<u8>)
    requires
        0 <= i,
        i + a.len() + b.len() <= s.len(),
        s.subrange(i, i + a.len() + b.len()) == a + b,
    ensures
        s.subrange(i, i + a.len()) == a,
        s.subrange(i + a.len(), i + a.len() + b.len()) == b,
{
    let whole = s.subrange(i, i + a.len() + b.len());
    assert forall|k: int| 0 <= k < a.len() implies s.subrange(i, i + a.len())[k] == a[k] by {
        assert(whole[k] == (a + b)[k]);
    }
    assert(s.subrange(i, i + a.len()) =~= a);
    assert forall|k: int| 0 <= k < b.len() implies s.subrange(
        i + a.len(),
        i + a.len() + b.len(),
    )[k] == b[k] by {
        assert(whole[a.len() + k] == (a + b)[a.len() + k]);
    }
    assert(s.subrange(i + a.len(), i + a.len() + b.len()) =~= b);
}

/// The decoding of a known number of characters at a position.
pub open spec fn dec_chars_at(s: Seq<u8>, i: int, n: nat) -> Option<(Seq<char>, int)>
    decreases n,
{
    if n == 0 {
        Some((Seq::empty(), i))
    } else {
        match dec_char_at(s, i) {
            Some(p) => match dec_chars_at(s, p.1, (n - 1) as nat) {
                Some(q) => Some((seq![p.0] + q.0, q.1)),
                None => None,
            },
            None => None,
        }
    }
}

/// The decoding of a string at a position.
pub open spec fn dec_str_at(s: Seq<u8>, i: int) -> Option<(Seq<char>, int)> {
    match dec_u32_at(s, i) {
        Some(p) => dec_chars_at(s, p.1, p.0 as nat),
        None => None,
    }
}

/// Decoding the encoding of a character sequence yields it back.
pub proof fn lemma_dec_enc_chars(s: Seq<u8>, i: int, cs: Seq<char>)
    requires
        0 <= i,
        i + 4 * cs.len() <= s.len(),
        s.subrange(i, i + 4 * cs.len()) == enc_chars(cs),
    ensures
        dec_chars_at(s, i, cs.len() as nat) == Some((cs, i + 4 * cs.len())),
    decreases cs.len(),
{
    if cs.len() == 0 {
    } else {
        lemma_enc_chars_len(cs.skip(1));
        assert(enc_chars(cs) == enc_char(cs[0]) + enc_chars(cs.skip(1)));
        lemma_subrange_split(s, i, enc_char(cs[0]), enc_chars(cs.skip(1)));
        lemma_dec_enc_char(s, i, cs[0]);
        lemma_dec_enc_chars(s, i + 4, cs.skip(1));
        assert(seq![cs[0]] + cs.skip(1) =~= cs);
    }
}

/// Decoding the encoding of a string yields the string back.
pub proof fn lemma_dec_enc_str(s: Seq<u8>, i: int, cs: Seq<char>)
    requires
        0 <= i,
        str_encodable(cs),
        i + enc_str(cs).len() <= s.len(),
        s.subrange(i, i + enc_str(cs).len()) == enc_str(cs),
    ensures
        dec_str_at(s, i) == Some((cs, i + enc_str(cs).len())),
{
    lemma_enc_chars_len(cs);
    lemma_subrange_split(s, i, enc_u32(cs.len() as u32), enc_chars(cs));
    lemma_dec_enc_u32(s, i, cs.len() as u32);
    assert((cs.len() as u32) as nat == cs.len());
    lemma_dec_enc_chars(s, i + 4, cs);
}

/// Appends a string: its character count, then its code points.
pub fn encode_string(out: &mut Vec<u8>, s: &str)
    requires
        str_encodable(s@),
    ensures
        final(out)@ == old(out)@ + enc_str(s@),
{
    let n = s.unicode_len();
    encode_u32(out, n as u32);
    let mut i: usize = 0;
    while i < n
        invariant
            0 <= i <= n,
            n == s@.len(),
            str_encodable(s@),
            out@ == old(out)@ + enc_u32(s@.len() as u32) + enc_chars(s@.take(i as int)),
        decreases n - i,
    {
        let c = s.get_char(i);
        proof {
            lemma_enc_chars_take(s@, i as int);
        }
        encode_u32(out, c as u32);
        proof {
            assert(out@ =~= old(out)@ + enc_u32(s@.len() as u32) + enc_chars(
                s@.take(i + 1),
            ));
        }
        i = i + 1;
    }
    proof {
        assert(s@.take(n as int) =~= s@);
        assert(final(out)@ =~= old(out)@ + enc_str(s@));
    }
}

/// Reads a string at a position.
pub fn decode_string(b: &Vec<u8>, pos: usize) -> (r: Option<(String, usize)>)
    ensures
        match r {
            Some(p) => dec_str_at(b@, pos as int) == Some((p.0@, p.1 as int)),
            None => dec_str_at(b@, pos as int) is None,
        },
{
    let (n, start) = match decode_u32(b, pos) {
        Some(p) => p,
        None => {
            return None;
        },
    };
    let mut acc = String::new();
    let mut cur = start;
    let mut k: u32 = 0;
    while k < n
        invariant
            0 <= k <= n,
            cur <= b@.len(),
            dec_str_at(b@, pos as int) == (match dec_chars_at(b@, cur as int, (n - k) as nat) {
                Some(q) => Some((acc@ + q.0, q.1)),
                None => None::<(Seq<char>, int)>,
            }),
        decreases n - k,
    {
        match decode_char(b, cur) {
            Some((c, end)) => {
                proof {
                    assert(dec_char_at(b@, cur as int) == Some((c, end as int)));
                    assert forall|q0: Seq<char>, q1: int|
                        dec_chars_at(b@, end as int, (n - k - 1) as nat) == Some((q0, q1))
                        implies acc@ + (seq![c] + q0) == acc@.push(c) + q0 by {
                        assert(acc@ + (seq![c] + q0) =~= acc@.push(c) + q0);
                    }
                }
                crate::text::push_char(&mut acc, c);
                cur = end;
                k = k + 1;
            },
            None => {
                return None;
            },
        }
    }
    proof {
        assert(dec_chars_at(b@, cur as int, 0) == Some((Seq::<char>::empty(), cur as int)));
        assert(acc@ + Seq::<char>::empty() =~= acc@);
    }
    Some((acc, cur))
}

// ---------------------------------------------------------------------
// Lists of strings (the test index) and of path links
// ---------------------------------------------------------------------
/// The views of a vector of strings.
pub open spec fn str_views(xs: Seq<String>) -> Seq<Seq<char>> {
    xs.map_values(|x: String| x@)
}

/// The encodings of a sequence of strings, in order.
pub open spec fn enc_str_items(xs: Seq<Seq<char>>) -> Seq<u8>
    decreases xs.len(),
{
    if xs.len() == 0 {
        Seq::empty()
    } else {
        enc_str(xs[0]) + enc_str_items(xs.skip(1))
    }
}

/// A list of strings: its count, then the strings.
pub open spec fn enc_str_vec(xs: Seq<Seq<char>>) -> Seq<u8> {
    enc_u32(xs.len() as u32) + enc_str_items(xs)
}

/// Whether a list of strings fits the 32-bit count and length fields.
pub open spec fn str_vec_encodable(xs: Seq<Seq<char>>) -> bool {
    xs.len() <= 0xffff_ffffnat && forall|j: int| 0 <= j < xs.len() ==> str_encodable(#[trigger] xs[j])
}

/// Encoding one more string extends the encoding of the prefix.
proof fn lemma_enc_str_items_take(xs: Seq<Seq<char>>, i: int)
    requires
        0 <= i < xs.len(),
    ensures
        enc_str_items(xs.take(i + 1)) == enc_str_items(xs.take(i)) + enc_str(xs[i]),
    decreases i,
{
    if i == 0 {
        assert(xs.take(1).skip(1) =~= Seq::<Seq<char>>::empty());
        assert(xs.take(1)[0] == xs[0]);
        assert(enc_str_items(Seq::<Seq<char>>::empty()) =~= Seq::<u8>::empty());
        assert(enc_str_items(xs.take(1)) =~= enc_str(xs[0]));
        assert(xs.take(0) =~= Seq::<Seq<char>>::empty());
        assert(enc_str_items(xs.take(0)) + enc_str(xs[0]) =~= enc_str(xs[0]));
    } else {
        lemma_enc_str_items_take(xs.skip(1), i - 1);
        assert(xs.take(i + 1).skip(1) =~= xs.skip(1).take(i));
        assert(xs.take(i).skip(1) =~= xs.skip(1).take(i - 1));
        assert(xs.take(i + 1)[0] == xs[0]);
        assert(xs.take(i)[0] == xs[0]);
        assert(xs.skip(1)[i - 1] == xs[i]);
        assert(enc_str(xs[0]) + (enc_str_items(xs.skip(1).take(i - 1)) + enc_str(xs[i])) =~= (
        enc_str(xs[0]) + enc_str_items(xs.skip(1).take(i - 1))) + enc_str(xs[i]));
    }
}

/// The decoding of a known number of strings at a position.
pub open spec fn dec_str_items(s: Seq<u8>, i: int, n: nat) -> Option<(Seq<Seq<char>>, int)>
    decreases n,
{
    if n == 0 {
        Some((Seq::empty(), i))
    } else {
        match dec_str_at(s, i) {
            Some(p) => match dec_str_items(s, p.1, (n - 1) as nat) {
                Some(q) => Some((seq![p.0] + q.0, q.1)),
                None => None,
            },
            None => None,
        }
    }
}

/// The decoding of a list of strings at a position.
pub open spec fn dec_str_vec_at(s: Seq<u8>, i: int) -> Option<(Seq<Seq<char>>, int)> {
    match dec_u32_at(s, i) {
        Some(p) => dec_str_items(s, p.1, p.0 as nat),
        None => None,
    }
}

/// Decoding the encodings of a string sequence yields it back.
pub proof fn lemma_dec_enc_str_items(s: Seq<u8>, i: int, xs: Seq<Seq<char>>)
    requires
        0 <= i,
        str_vec_encodable(xs),
        i + enc_str_items(xs).len() <= s.len(),
        s.subrange(i, i + enc_str_items(xs).len()) == enc_str_items(xs),
    ensures
        dec_str_items(s, i, xs.len() as nat) == Some((xs, i + enc_str_items(xs).len())),
    decreases xs.len(),
{
    if xs.len() == 0 {
        assert(xs =~= Seq::<Seq<char>>::empty());
    } else {
        assert(enc_str_items(xs) == enc_str(xs[0]) + enc_str_items(xs.skip(1)));
        lemma_subrange_split(s, i, enc_str(xs[0]), enc_str_items(xs.skip(1)));
        lemma_dec_enc_str(s, i, xs[0]);
        assert(str_vec_encodable(xs.skip(1))) by {
            assert(forall|j: int| 0 <= j < xs.skip(1).len() ==> #[trigger] xs.skip(1)[j] == xs[
                j + 1
            ]);
        }
        lemma_dec_enc_str_items(s, i + enc_str(xs[0]).len(), xs.skip(1));
        assert(seq![xs[0]] + xs.skip(1) =~= xs);
    }
}

/// Decoding the encoding of a list of strings yields it back.
pub proof fn lemma_dec_enc_str_vec(s: Seq<u8>, i: int, xs: Seq<Seq<char>>)
    requires
        0 <= i,
        str_vec_encodable(xs),
        i + enc_str_vec(xs).len() <= s.len(),
        s.subrange(i, i + enc_str_vec(xs).len()) == enc_str_vec(xs),
    ensures
        dec_str_vec_at(s, i) == Some((xs, i + enc_str_vec(xs).len())),
{
    lemma_subrange_split(s, i, enc_u32(xs.len() as u32), enc_str_items(xs));
    lemma_dec_enc_u32(s, i, xs.len() as u32);
    assert((xs.len() as u32) as nat == xs.len());
    lemma_dec_enc_str_items(s, i + 4, xs);
}

/// Appends a list of strings.
pub fn encode_str_vec(out: &mut Vec<u8>, xs: &Vec<String>)
    requires
        str_vec_encodable(str_views(xs@)),
    ensures
        final(out)@ == old(out)@ + enc_str_vec(str_views(xs@)),
{
    let ghost views = str_views(xs@);
    let n = xs.len();
    encode_u32(out, n as u32);
    let mut i: usize = 0;
    while i < n
        invariant
            0 <= i <= n,
            n == xs@.len(),
            views == str_views(xs@),
            str_vec_encodable(views),
            out@ == old(out)@ + enc_u32(views.len() as u32) + enc_str_items(views.take(i as int)),
        decreases n - i,
    {
        proof {
            lemma_enc_str_items_take(views, i as int);
            assert(views[i as int] == xs@[i as int]@);
        }
        encode_string(out, xs[i].as_str());
        proof {
            assert(out@ =~= old(out)@ + enc_u32(views.len() as u32) + enc_str_items(
                views.take(i + 1),
            ));
        }
        i = i + 1;
    }
    proof {
        assert(views.take(n as int) =~= views);
        assert(final(out)@ =~= old(out)@ + enc_str_vec(views));
    }
}

/// Reads a list of strings at a position.
pub fn decode_str_vec(b: &Vec<u8>, pos: usize) -> (r: Option<(Vec<String>, usize)>)
    ensures
        match r {
            Some(p) => dec_str_vec_at(b@, pos as int) == Some((str_views(p.0@), p.1 as int)),
            None => dec_str_vec_at(b@, pos as int) is None,
        },
{
    let (n, start) = match decode_u32(b, pos) {
        Some(p) => p,
        None => {
            return None;
        },
    };
    let mut acc: Vec<String> = Vec::new();
    let mut cur = start;
    let mut k: u32 = 0;
    while k < n
        invariant
            0 <= k <= n,
            dec_str_vec_at(b@, pos as int) == (match dec_str_items(b@, cur as int, (n - k) as nat) {
                Some(q) => Some((str_views(acc@) + q.0, q.1)),
                None => None::<(Seq<Seq<char>>, int)>,
            }),
        decreases n - k,
    {
        match decode_string(b, cur) {
            Some((x, end)) => {
                proof {
                    assert forall|q0: Seq<Seq<char>>, q1: int|
                        dec_str_items(b@, end as int, (n - k - 1) as nat) == Some((q0, q1))
                        implies str_views(acc@) + (seq![x@] + q0) == str_views(acc@.push(x))
                        + q0 by {
                        assert(str_views(acc@.push(x)) =~= str_views(acc@).push(x@));
                        assert(str_views(acc@) + (seq![x@] + q0) =~= str_views(acc@).push(x@)
                            + q0);
                    }
                }
                acc.push(x);
                cur = end;
                k = k + 1;
            },
            None => {
                return None;
            },
        }
    }
    proof {
        assert(dec_str_items(b@, cur as int, 0) == Some((Seq::<Seq<char>>::empty(), cur as int)));
        assert(str_views(acc@) + Seq::<Seq<char>>::empty() =~= str_views(acc@));
    }
    Some((acc, cur))
}

/// The view of a path segment: whether it is optional, and its name.
pub open spec fn link_view(p: PathLink) -> (bool, Seq<char>) {
    (p.optional_view(), p.name_view())
}

/// The views of a vector of path segments.
pub open spec fn link_views(ps: Seq<PathLink>) -> Seq<(bool, Seq<char>)> {
    ps.map_values(|p: PathLink| link_view(p))
}

/// A path segment: its optional flag, then its name.
pub open spec fn enc_link(l: (bool, Seq<char>)) -> Seq<u8> {
    enc_bool(l.0) + enc_str(l.1)
}

/// The encodings of a sequence of path segments, in order.
pub open spec fn enc_link_items(ls: Seq<(bool, Seq<char>)>) -> Seq<u8>
    decreases ls.len(),
{
    if ls.len() == 0 {
        Seq::empty()
    } else {
        enc_link(ls[0]) + enc_link_items(ls.skip(1))
    }
}

/// A path: its segment count, then its segments.
pub open spec fn enc_links(ls: Seq<(bool, Seq<char>)>) -> Seq<u8> {
    enc_u32(ls.len() as u32) + enc_link_items(ls)
}

/// Whether a path fits the 32-bit count and length fields.
pub open spec fn links_encodable(ls: Seq<(bool, Seq<char>)>) -> bool {
    ls.len() <= 0xffff_ffffnat && forall|j: int|
        0 <= j < ls.len() ==> str_encodable((#[trigger] ls[j]).1)
}

/// Encoding one more segment extends the encoding of the prefix.
proof fn lemma_enc_link_items_take(ls: Seq<(bool, Seq<char>)>, i: int)
    requires
        0 <= i < ls.len(),
    ensures
        enc_link_items(ls.take(i + 1)) == enc_link_items(ls.take(i)) + enc_link(ls[i]),
    decreases i,
{
    if i == 0 {
        assert(ls.take(1).skip(1) =~= Seq::<(bool, Seq<char>)>::empty());
        assert(ls.take(1)[0] == ls[0]);
        assert(enc_link_items(Seq::<(bool, Seq<char>)>::empty()) =~= Seq::<u8>::empty());
        assert(enc_link_items(ls.take(1)) =~= enc_link(ls[0]));
        assert(ls.take(0) =~= Seq::<(bool, Seq<char>)>::empty());
        assert(enc_link_items(ls.take(0)) + enc_link(ls[0]) =~= enc_link(ls[0]));
    } else {
        lemma_enc_link_items_take(ls.skip(1), i - 1);
        assert(ls.take(i + 1).skip(1) =~= ls.skip(1).take(i));
        assert(ls.take(i).skip(1) =~= ls.skip(1).take(i - 1));
        assert(ls.take(i + 1)[0] == ls[0]);
        assert(ls.take(i)[0] == ls[0]);
        assert(ls.skip(1)[i - 1] == ls[i]);
        assert(enc_link(ls[0]) + (enc_link_items(ls.skip(1).take(i - 1)) + enc_link(ls[i])) =~= (
        enc_link(ls[0]) + enc_link_items(ls.skip(1).take(i - 1))) + enc_link(ls[i]));
    }
}

/// The decoding of a known number of path segments at a position.
pub open spec fn dec_link_items(s: Seq<u8>, i: int, n: nat) -> Option<(Seq<(bool, Seq<char>)>, int)>
    decreases n,
{
    if n == 0 {
        Some((Seq::empty(), i))
    } else {
        match dec_bool_at(s, i) {
            Some(p) => match dec_str_at(s, p.1) {
                Some(q) => match dec_link_items(s, q.1, (n - 1) as nat) {
                    Some(t) => Some((seq![(p.0, q.0)] + t.0, t.1)),
                    None => None,
                },
                None => None,
            },
            None => None,
        }
    }
}

/// The decoding of a path at a position.
pub open spec fn dec_links_at(s: Seq<u8>, i: int) -> Option<(Seq<(bool, Seq<char>)>, int)> {
    match dec_u32_at(s, i) {
        Some(p) => dec_link_items(s, p.1, p.0 as nat),
        None => None,
    }
}

/// Decoding the encoding of one path segment yields it back.
proof fn lemma_dec_enc_link(s: Seq<u8>, i: int, l: (bool, Seq<char>))
    requires
        0 <= i,
        str_encodable(l.1),
        i + enc_link(l).len() <= s.len(),
        s.subrange(i, i + enc_link(l).len()) == enc_link(l),
    ensures
        dec_bool_at(s, i) == Some((l.0, i + 1)),
        dec_str_at(s, i + 1) == Some((l.1, i + enc_link(l).len())),
{
    lemma_subrange_split(s, i, enc_bool(l.0), enc_str(l.1));
    assert(s[i] == enc_bool(l.0)[0]);
    lemma_dec_enc_str(s, i + 1, l.1);
}

/// Decoding the encodings of a segment sequence yields it back.
pub proof fn lemma_dec_enc_link_items(s: Seq<u8>, i: int, ls: Seq<(bool, Seq<char>)>)
    requires
        0 <= i,
        links_encodable(ls),
        i + enc_link_items(ls).len() <= s.len(),
        s.subrange(i, i + enc_link_items(ls).len()) == enc_link_items(ls),
    ensures
        dec_link_items(s, i, ls.len() as nat) == Some((ls, i + enc_link_items(ls).len())),
    decreases ls.len(),
{
    if ls.len() == 0 {
        assert(ls =~= Seq::<(bool, Seq<char>)>::empty());
    } else {
        assert(enc_link_items(ls) == enc_link(ls[0]) + enc_link_items(ls.skip(1)));
        lemma_subrange_split(s, i, enc_link(ls[0]), enc_link_items(ls.skip(1)));
        lemma_dec_enc_link(s, i, ls[0]);
        assert(links_encodable(ls.skip(1))) by {
            assert(forall|j: int| 0 <= j < ls.skip(1).len() ==> #[trigger] ls.skip(1)[j] == ls[
                j + 1
            ]);
        }
        lemma_dec_enc_link_items(s, i + enc_link(ls[0]).len(), ls.skip(1));
        assert(seq![ls[0]] + ls.skip(1) =~= ls);
    }
}

/// Decoding the encoding of a path yields it back.
pub proof fn lemma_dec_enc_links(s: Seq<u8>, i: int, ls: Seq<(bool, Seq<char>)>)
    requires
        0 <= i,
        links_encodable(ls),
        i + enc_links(ls).len() <= s.len(),
        s.subrange(i, i + enc_links(ls).len()) == enc_links(ls),
    ensures
        dec_links_at(s, i) == Some((ls, i + enc_links(ls).len())),
{
    lemma_subrange_split(s, i, enc_u32(ls.len() as u32), enc_link_items(ls));
    lemma_dec_enc_u32(s, i, ls.len() as u32);
    assert((ls.len() as u32) as nat == ls.len());
    lemma_dec_enc_link_items(s, i + 4, ls);
}

/// Appends a path.
pub fn encode_links(out: &mut Vec<u8>, ps: &Vec<PathLink>)
    requires
        links_encodable(link_views(ps@)),
    ensures
        final(out)@ == old(out)@ + enc_links(link_views(ps@)),
{
    let ghost views = link_views(ps@);
    let n = ps.len();
    encode_u32(out, n as u32);
    let mut i: usize = 0;
    while i < n
        invariant
            0 <= i <= n,
            n == ps@.len(),
            views == link_views(ps@),
            links_encodable(views),
            out@ == old(out)@ + enc_u32(views.len() as u32) + enc_link_items(views.take(i as int)),
        decreases n - i,
    {
        proof {
            lemma_enc_link_items_take(views, i as int);
            assert(views[i as int] == link_view(ps@[i as int]));
        }
        match &ps[i] {
            PathLink::Link(name) => {
                encode_bool(out, false);
                encode_string(out, name.as_str());
            },
            PathLink::LinkOptional(name) => {
                encode_bool(out, true);
                encode_string(out, name.as_str());
            },
        }
        proof {
            assert(out@ =~= old(out)@ + enc_u32(views.len() as u32) + enc_link_items(
                views.take(i + 1),
            ));
        }
        i = i + 1;
    }
    proof {
        assert(views.take(n as int) =~= views);
        assert(final(out)@ =~= old(out)@ + enc_links(views));
    }
}

/// Reads a path at a position.
pub fn decode_links(b: &Vec<u8>, pos: usize) -> (r: Option<(Vec<PathLink>, usize)>)
    ensures
        match r {
            Some(p) => dec_links_at(b@, pos as int) == Some((link_views(p.0@), p.1 as int)),
            None => dec_links_at(b@, pos as int) is None,
        },
{
    let (n, start) = match decode_u32(b, pos) {
        Some(p) => p,
        None => {
            return None;
        },
    };
    let mut acc: Vec<PathLink> = Vec::new();
    let mut cur = start;
    let mut k: u32 = 0;
    while k < n
        invariant
            0 <= k <= n,
            dec_links_at(b@, pos as int) == (match dec_link_items(
                b@,
                cur as int,
                (n - k) as nat,
            ) {
                Some(q) => Some((link_views(acc@) + q.0, q.1)),
                None => None::<(Seq<(bool, Seq<char>)>, int)>,
            }),
        decreases n - k,
    {
        let (opt, mid) = match decode_bool(b, cur) {
            Some(p) => p,
            None => {
                return None;
            },
        };
        let (name, end) = match decode_string(b, mid) {
            Some(p) => p,
            None => {
                return None;
            },
        };
        let link = if opt {
            PathLink::LinkOptional(name)
        } else {
            PathLink::Link(name)
        };
        proof {
            assert(link_view(link) == (opt, dec_str_at(b@, mid as int).unwrap().0));
            assert forall|q0: Seq<(bool, Seq<char>)>, q1: int|
                dec_link_items(b@, end as int, (n - k - 1) as nat) == Some((q0, q1))
                implies link_views(acc@) + (seq![link_view(link)] + q0) == link_views(
                acc@.push(link),
            ) + q0 by {
                assert(link_views(acc@.push(link)) =~= link_views(acc@).push(link_view(link)));
                assert(link_views(acc@) + (seq![link_view(link)] + q0) =~= link_views(
                    acc@,
                ).push(link_view(link)) + q0);
            }
        }
        acc.push(link);
        cur = end;
        k = k + 1;
    }
    proof {
        assert(dec_link_items(b@, cur as int, 0) == Some(
            (Seq::<(bool, Seq<char>)>::empty(), cur as int),
        ));
        assert(link_views(acc@) + Seq::<(bool, Seq<char>)>::empty() =~= link_views(acc@));
    }
    Some((acc, cur))
}

// ---------------------------------------------------------------------
// Test records and course metadata
// ---------------------------------------------------------------------
/// The mathematical view of a test record: every string as its character
/// sequence.
#[verifier::ext_equal]
pub struct TestView {
    pub name: Seq<char>,
    pub slug: Seq<char>,
    pub message_on_success: Seq<char>,
    pub message_on_fail: Seq<char>,
    pub cmd: Seq<Seq<char>>,
    pub path: Seq<(bool, Seq<char>)>,
    pub passed: ValidationState,
    pub optional: bool,
}

impl TestView {
    /// The same view with the validation state replaced.
    pub open spec fn with_state(self, st: ValidationState) -> TestView {
        TestView { passed: st, ..self }
    }
}

/// The view of a test record.
pub open spec fn view_of(t: TestState) -> TestView {
    TestView {
        name: t.name@,
        slug: t.slug@,
        message_on_success: t.message_on_success@,
        message_on_fail: t.message_on_fail@,
        cmd: str_views(t.cmd@),
        path: link_views(t.path@),
        passed: t.passed,
        optional: t.optional,
    }
}

/// A test record: its fields in declaration order.
pub open spec fn enc_record_v(tv: TestView) -> Seq<u8> {
    enc_str(tv.name) + enc_str(tv.slug) + enc_str(tv.message_on_success) + enc_str(
        tv.message_on_fail,
    ) + enc_str_vec(tv.cmd) + enc_links(tv.path) + enc_vstate(tv.passed) + enc_bool(tv.optional)
}

/// The encoding of a test record.
pub open spec fn enc_record(t: TestState) -> Seq<u8> {
    enc_record_v(view_of(t))
}

/// Whether a record's fields fit the 32-bit count and length fields.
pub open spec fn record_encodable_v(tv: TestView) -> bool {
    &&& str_encodable(tv.name)
    &&& str_encodable(tv.slug)
    &&& str_encodable(tv.message_on_success)
    &&& str_encodable(tv.message_on_fail)
    &&& str_vec_encodable(tv.cmd)
    &&& links_encodable(tv.path)
}

/// Whether a test record fits the 32-bit count and length fields.
pub open spec fn record_encodable(t: TestState) -> bool {
    record_encodable_v(view_of(t))
}

/// The decoding of a test record at a position.
pub open spec fn dec_record_at(s: Seq<u8>, i: int) -> Option<(TestView, int)> {
    match dec_str_at(s, i) {
        Some(name) => match dec_str_at(s, name.1) {
            Some(slug) => match dec_str_at(s, slug.1) {
                Some(msg_ok) => match dec_str_at(s, msg_ok.1) {
                    Some(msg_fail) => match dec_str_vec_at(s, msg_fail.1) {
                        Some(cmd) => match dec_links_at(s, cmd.1) {
                            Some(path) => match dec_vstate_at(s, path.1) {
                                Some(passed) => match dec_bool_at(s, passed.1) {
                                    Some(optional) => Some(
                                        (
                                            TestView {
                                                name: name.0,
                                                slug: slug.0,
                                                message_on_success: msg_ok.0,
                                                message_on_fail: msg_fail.0,
                                                cmd: cmd.0,
                                                path: path.0,
                                                passed: passed.0,
                                                optional: optional.0,
                                            },
                                            optional.1,
                                        ),
                                    ),
                                    None => None,
                                },
                                None => None,
                            },
                            None => None,
                        },
                        None => None,
                    },
                    None => None,
                },
                None => None,
            },
            None => None,
        },
        None => None,
    }
}

/// Decoding the encoding of a test record yields the record back.
#[verifier::rlimit(60)]
pub proof fn lemma_dec_enc_record(s: Seq<u8>, i: int, tv: TestView)
    requires
        0 <= i,
        record_encodable_v(tv),
        i + enc_record_v(tv).len() <= s.len(),
        s.subrange(i, i + enc_record_v(tv).len()) == enc_record_v(tv),
    ensures
        dec_record_at(s, i) == Some((tv, i + enc_record_v(tv).len())),
{
    let e1 = enc_str(tv.name);
    let e2 = enc_str(tv.slug);
    let e3 = enc_str(tv.message_on_success);
    let e4 = enc_str(tv.message_on_fail);
    let e5 = enc_str_vec(tv.cmd);
    let e6 = enc_links(tv.path);
    let e7 = enc_vstate(tv.passed);
    let e8 = enc_bool(tv.optional);
    assert(enc_record_v(tv) =~= e1 + (e2 + (e3 + (e4 + (e5 + (e6 + (e7 + e8)))))));
    let i1 = i + e1.len();
    lemma_subrange_split(s, i, e1, e2 + (e3 + (e4 + (e5 + (e6 + (e7 + e8))))));
    lemma_dec_enc_str(s, i, tv.name);
    let i2 = i1 + e2.len();
    lemma_subrange_split(s, i1, e2, e3 + (e4 + (e5 + (e6 + (e7 + e8)))));
    lemma_dec_enc_str(s, i1, tv.slug);
    let i3 = i2 + e3.len();
    lemma_subrange_split(s, i2, e3, e4 + (e5 + (e6 + (e7 + e8))));
    lemma_dec_enc_str(s, i2, tv.message_on_success);
    let i4 = i3 + e4.len();
    lemma_subrange_split(s, i3, e4, e5 + (e6 + (e7 + e8)));
    lemma_dec_enc_str(s, i3, tv.message_on_fail);
    let i5 = i4 + e5.len();
    lemma_subrange_split(s, i4, e5, e6 + (e7 + e8));
    lemma_dec_enc_str_vec(s, i4, tv.cmd);
    let i6 = i5 + e6.len();
    lemma_subrange_split(s, i5, e6, e7 + e8);
    lemma_dec_enc_links(s, i5, tv.path);
    let i7 = i6 + e7.len();
    lemma_subrange_split(s, i6, e7, e8);
    assert(s[i6] == e7[0]);
    assert(s[i7] == e8[0]);
    assert(dec_vstate_at(s, i6) == Some((tv.passed, i7)));
    assert(dec_bool_at(s, i7) == Some((tv.optional, i7 + 1)));
}

/// Appends a test record.
pub fn encode_record(out: &mut Vec<u8>, t: &TestState)
    requires
        record_encodable(*t),
    ensures
        final(out)@ == old(out)@ + enc_record(*t),
{
    encode_string(out, t.name.as_str());
    encode_string(out, t.slug.as_str());
    encode_string(out, t.message_on_success.as_str());
    encode_string(out, t.message_on_fail.as_str());
    encode_str_vec(out, &t.cmd);
    encode_links(out, &t.path);
    encode_vstate(out, t.passed);
    encode_bool(out, t.optional);
    proof {
        assert(final(out)@ =~= old(out)@ + enc_record(*t));
    }
}

/// Reads a test record at a position.
pub fn decode_record(b: &Vec<u8>, pos: usize) -> (r: Option<(TestState, usize)>)
    ensures
        match r {
            Some(p) => dec_record_at(b@, pos as int) == Some((view_of(p.0), p.1 as int)),
            None => dec_record_at(b@, pos as int) is None,
        },
{
    let (name, p1) = match decode_string(b, pos) {
        Some(p) => p,
        None => {
            return None;
        },
    };
    let (slug, p2) = match decode_string(b, p1) {
        Some(p) => p,
        None => {
            return None;
        },
    };
    let (message_on_success, p3) = match decode_string(b, p2) {
        Some(p) => p,
        None => {
            return None;
        },
    };
    let (message_on_fail, p4) = match decode_string(b, p3) {
        Some(p) => p,
        None => {
            return None;
        },
    };
    let (cmd, p5) = match decode_str_vec(b, p4) {
        Some(p) => p,
        None => {
            return None;
        },
    };
    let (path, p6) = match decode_links(b, p5) {
        Some(p) => p,
        None => {
            return None;
        },
    };
    let (passed, p7) = match decode_vstate(b, p6) {
        Some(p) => p,
        None => {
            return None;
        },
    };
    let (optional, p8) = match decode_bool(b, p7) {
        Some(p) => p,
        None => {
            return None;
        },
    };
    let t = TestState {
        name,
        slug,
        message_on_success,
        message_on_fail,
        cmd,
        path,
        passed,
        optional,
    };
    proof {
        assert(dec_record_at(b@, pos as int) matches Some(p) && p.0 =~= view_of(t) && p.1
            == p8 as int);
    }
    Some((t, p8))
}

/// Course metadata: its four URL and identifier fields in order.
pub open spec fn enc_metadata(m: CourseMetaData) -> Seq<u8> {
    enc_str(m.logstream_url@) + enc_str(m.logstream_id@) + enc_str(m.ws_url@) + enc_str(
        m.tester_url@,
    )
}

/// Whether metadata fits the 32-bit length fields.
pub open spec fn metadata_encodable(m: CourseMetaData) -> bool {
    str_encodable(m.logstream_url@) && str_encodable(m.logstream_id@) && str_encodable(m.ws_url@)
        && str_encodable(m.tester_url@)
}

/// The decoding of course metadata at a position: the four fields' views.
pub open spec fn dec_metadata_at(s: Seq<u8>, i: int) -> Option<
    ((Seq<char>, Seq<char>, Seq<char>, Seq<char>), int),
> {
    match dec_str_at(s, i) {
        Some(a) => match dec_str_at(s, a.1) {
            Some(b_) => match dec_str_at(s, b_.1) {
                Some(c) => match dec_str_at(s, c.1) {
                    Some(d) => Some(((a.0, b_.0, c.0, d.0), d.1)),
                    None => None,
                },
                None => None,
            },
            None => None,
        },
        None => None,
    }
}

/// Decoding the encoding of course metadata yields it back.
pub proof fn lemma_dec_enc_metadata(s: Seq<u8>, i: int, m: CourseMetaData)
    requires
        0 <= i,
        metadata_encodable(m),
        i + enc_metadata(m).len() <= s.len(),
        s.subrange(i, i + enc_metadata(m).len()) == enc_metadata(m),
    ensures
        dec_metadata_at(s, i) == Some(
            ((m.logstream_url@, m.logstream_id@, m.ws_url@, m.tester_url@), i + enc_metadata(
                m,
            ).len()),
        ),
{
    let e1 = enc_str(m.logstream_url@);
    let e2 = enc_str(m.logstream_id@);
    let e3 = enc_str(m.ws_url@);
    let e4 = enc_str(m.tester_url@);
    assert(enc_metadata(m) =~= e1 + (e2 + (e3 + e4)));
    lemma_subrange_split(s, i, e1, e2 + (e3 + e4));
    lemma_dec_enc_str(s, i, m.logstream_url@);
    let i1 = i + e1.len();
    lemma_subrange_split(s, i1, e2, e3 + e4);
    lemma_dec_enc_str(s, i1, m.logstream_id@);
    let i2 = i1 + e2.len();
    lemma_subrange_split(s, i2, e3, e4);
    lemma_dec_enc_str(s, i2, m.ws_url@);
    lemma_dec_enc_str(s, i2 + e3.len(), m.tester_url@);
}

/// Appends course metadata.
pub fn encode_metadata(out: &mut Vec<u8>, m: &CourseMetaData)
    requires
        metadata_encodable(*m),
    ensures
        final(out)@ == old(out)@ + enc_metadata(*m),
{
    encode_string(out, m.logstream_url.as_str());
    encode_string(out, m.logstream_id.as_str());
    encode_string(out, m.ws_url.as_str());
    encode_string(out, m.tester_url.as_str());
    proof {
        assert(final(out)@ =~= old(out)@ + enc_metadata(*m));
    }
}

/// Reads course metadata at a position.
pub fn decode_metadata(b: &Vec<u8>, pos: usize) -> (r: Option<(CourseMetaData, usize)>)
    ensures
        match r {
            Some(p) => dec_metadata_at(b@, pos as int) == Some(
                (
                    (p.0.logstream_url@, p.0.logstream_id@, p.0.ws_url@, p.0.tester_url@),
                    p.1 as int,
                ),
            ),
            None => dec_metadata_at(b@, pos as int) is None,
        },
{
    let (logstream_url, p1) = match decode_string(b, pos) {
        Some(p) => p,
        None => {
            return None;
        },
    };
    let (logstream_id, p2) = match decode_string(b, p1) {
        Some(p) => p,
        None => {
            return None;
        },
    };
    let (ws_url, p3) = match decode_string(b, p2) {
        Some(p) => p,
        None => {
            return None;
        },
    };
    let (tester_url, p4) = match decode_string(b, p3) {
        Some(p) => p,
        None => {
            return None;
        },
    };
    Some((CourseMetaData { logstream_url, logstream_id, ws_url, tester_url }, p4))
}

} // verus!
