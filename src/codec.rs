use vstd::bytes::*;
use vstd::prelude::*;
use vstd::slice::slice_subrange;
use vstd::utf8::*;

use crate::field::FieldValue;
use crate::field::TemplateType;
use crate::field::TupleField;
use crate::message::Message;
use crate::message::MessageType;
use crate::message::MessageValue;
use crate::space::tuple_values;
use crate::template::element_values;
use crate::template::template_matches;
use crate::template::Template;
use crate::template::TemplateValue;
use crate::tuple::field_values;
use crate::tuple::Tuple;

verus! {

broadcast use vstd::seq_lib::group_seq_properties;

// A field is written as one tag byte and its payload. Integers are written in
// little-endian order, at their own width (`usize` and `isize` at 64 bits);
// a `char` as its scalar value in four bytes; a `bool` as one byte, 0 or 1. A
// byte string is written as its length in eight bytes and the bytes; a text as
// the byte string of its UTF-8 encoding; a custom value as the text of its
// kind's name and the byte string of its data.

/// The tag byte of each kind.
pub open spec fn field_tag(v: FieldValue) -> u8 {
    match v {
        FieldValue::I8(_) => 0,
        FieldValue::I16(_) => 1,
        FieldValue::I32(_) => 2,
        FieldValue::I64(_) => 3,
        FieldValue::I128(_) => 4,
        FieldValue::U8(_) => 5,
        FieldValue::U16(_) => 6,
        FieldValue::U32(_) => 7,
        FieldValue::U64(_) => 8,
        FieldValue::U128(_) => 9,
        FieldValue::Usize(_) => 10,
        FieldValue::Isize(_) => 11,
        FieldValue::Char(_) => 12,
        FieldValue::Bool(_) => 13,
        FieldValue::Str(_) => 14,
        FieldValue::Custom(_, _) => 15,
    }
}

/// A byte string: its length in eight bytes, then its bytes.
pub open spec fn blob_bytes(d: Seq<u8>) -> Seq<u8> {
    spec_u64_to_le_bytes(d.len() as u64) + d
}

/// A text: the byte string of its UTF-8 encoding.
pub open spec fn text_bytes(s: Seq<char>) -> Seq<u8> {
    blob_bytes(encode_utf8(s))
}

/// The bytes that follow the tag byte of a field.
pub open spec fn payload_bytes(v: FieldValue) -> Seq<u8> {
    match v {
        FieldValue::I8(x) => seq![x as u8],
        FieldValue::I16(x) => spec_u16_to_le_bytes(x as u16),
        FieldValue::I32(x) => spec_u32_to_le_bytes(x as u32),
        FieldValue::I64(x) => spec_u64_to_le_bytes(x as u64),
        FieldValue::I128(x) => spec_u128_to_le_bytes(x as u128),
        FieldValue::U8(x) => seq![x],
        FieldValue::U16(x) => spec_u16_to_le_bytes(x),
        FieldValue::U32(x) => spec_u32_to_le_bytes(x),
        FieldValue::U64(x) => spec_u64_to_le_bytes(x),
        FieldValue::U128(x) => spec_u128_to_le_bytes(x),
        FieldValue::Usize(x) => spec_u64_to_le_bytes(x as u64),
        FieldValue::Isize(x) => spec_u64_to_le_bytes(x as i64 as u64),
        FieldValue::Char(c) => spec_u32_to_le_bytes(c as u32),
        FieldValue::Bool(b) => seq![if b { 1u8 } else { 0u8 }],
        FieldValue::Str(s) => text_bytes(s),
        FieldValue::Custom(k, d) => text_bytes(k) + blob_bytes(d),
    }
}

/// The encoding of a field.
pub open spec fn field_bytes(v: FieldValue) -> Seq<u8> {
    seq![field_tag(v)] + payload_bytes(v)
}

/// The lengths in a field value fit the eight bytes that hold them, as they
/// do in every field of a running program.
pub open spec fn field_fits(v: FieldValue) -> bool {
    match v {
        FieldValue::Str(s) => encode_utf8(s).len() <= u64::MAX,
        FieldValue::Custom(k, d) => encode_utf8(k).len() <= u64::MAX && d.len() <= u64::MAX,
        _ => true,
    }
}

/// Reads a byte string at the start of `b`: the bytes and how many bytes
/// were read.
pub open spec fn parse_blob(b: Seq<u8>) -> Option<(Seq<u8>, int)> {
    if b.len() < 8 {
        None
    } else {
        let n = spec_u64_from_le_bytes(b.subrange(0, 8)) as int;
        if b.len() - 8 < n {
            None
        } else {
            Some((b.subrange(8, 8 + n), 8 + n))
        }
    }
}

/// Reads a text at the start of `b`: the characters and how many bytes were
/// read. Bytes that are not UTF-8 are refused.
pub open spec fn parse_text(b: Seq<u8>) -> Option<(Seq<char>, int)> {
    match parse_blob(b) {
        Some((d, n)) => if valid_utf8(d) { Some((decode_utf8(d), n)) } else { None },
        None => None,
    }
}

/// Reads a fixed-width payload of `k` bytes after the tag byte.
pub open spec fn fixed(b: Seq<u8>, k: int) -> Option<Seq<u8>> {
    if b.len() < 1 + k {
        None
    } else {
        Some(b.subrange(1, 1 + k))
    }
}

/// Reads a field at the start of `b`: its value and how many bytes were
/// read. An unknown tag, a short input, a `bool` byte other than 0 or 1, a
/// number that is no `char`, one out of the range of `usize` or `isize`,
/// and text that is not UTF-8 are refused.
#[verifier::opaque]
pub open spec fn parse_field(b: Seq<u8>) -> Option<(FieldValue, int)> {
    if b.len() == 0 {
        None
    } else {
        let tag = b[0];
        if tag == 0 {
            match fixed(b, 1) { Some(p) => Some((FieldValue::I8(p[0] as i8), 2)), None => None }
        } else if tag == 1 {
            match fixed(b, 2) { Some(p) => Some((FieldValue::I16(spec_u16_from_le_bytes(p) as i16), 3)), None => None }
        } else if tag == 2 {
            match fixed(b, 4) { Some(p) => Some((FieldValue::I32(spec_u32_from_le_bytes(p) as i32), 5)), None => None }
        } else if tag == 3 {
            match fixed(b, 8) { Some(p) => Some((FieldValue::I64(spec_u64_from_le_bytes(p) as i64), 9)), None => None }
        } else if tag == 4 {
            match fixed(b, 16) { Some(p) => Some((FieldValue::I128(spec_u128_from_le_bytes(p) as i128), 17)), None => None }
        } else if tag == 5 {
            match fixed(b, 1) { Some(p) => Some((FieldValue::U8(p[0]), 2)), None => None }
        } else if tag == 6 {
            match fixed(b, 2) { Some(p) => Some((FieldValue::U16(spec_u16_from_le_bytes(p)), 3)), None => None }
        } else if tag == 7 {
            match fixed(b, 4) { Some(p) => Some((FieldValue::U32(spec_u32_from_le_bytes(p)), 5)), None => None }
        } else if tag == 8 {
            match fixed(b, 8) { Some(p) => Some((FieldValue::U64(spec_u64_from_le_bytes(p)), 9)), None => None }
        } else if tag == 9 {
            match fixed(b, 16) { Some(p) => Some((FieldValue::U128(spec_u128_from_le_bytes(p)), 17)), None => None }
        } else if tag == 10 {
            match fixed(b, 8) {
                Some(p) => {
                    let x = spec_u64_from_le_bytes(p);
                    if (x as usize) as u64 == x { Some((FieldValue::Usize(x as usize), 9)) } else { None }
                },
                None => None,
            }
        } else if tag == 11 {
            match fixed(b, 8) {
                Some(p) => {
                    let x = spec_u64_from_le_bytes(p) as i64;
                    if (x as isize) as i64 == x { Some((FieldValue::Isize(x as isize), 9)) } else { None }
                },
                None => None,
            }
        } else if tag == 12 {
            match fixed(b, 4) {
                Some(p) => {
                    let u = spec_u32_from_le_bytes(p);
                    if is_scalar(u) { Some((FieldValue::Char(u as char), 5)) } else { None }
                },
                None => None,
            }
        } else if tag == 13 {
            match fixed(b, 1) {
                Some(p) => if p[0] == 0 {
                    Some((FieldValue::Bool(false), 2))
                } else if p[0] == 1 {
                    Some((FieldValue::Bool(true), 2))
                } else {
                    None
                },
                None => None,
            }
        } else if tag == 14 {
            match parse_text(b.subrange(1, b.len() as int)) {
                Some((s, n)) => Some((FieldValue::Str(s), 1 + n)),
                None => None,
            }
        } else if tag == 15 {
            let rest = b.subrange(1, b.len() as int);
            match parse_text(rest) {
                Some((k, n)) => match parse_blob(rest.subrange(n, rest.len() as int)) {
                    Some((d, m)) => Some((FieldValue::Custom(k, d), 1 + n + m)),
                    None => None,
                },
                None => None,
            }
        } else {
            None
        }
    }
}

/// A byte string is read back from its encoding, whatever follows it.
pub proof fn lemma_blob_round_trip(d: Seq<u8>, rest: Seq<u8>)
    requires
        d.len() <= u64::MAX,
    ensures
        parse_blob(blob_bytes(d) + rest) == Some((d, 8 + d.len() as int)),
{
    lemma_auto_spec_u64_to_from_le_bytes();
    let b = blob_bytes(d) + rest;
    assert(b.subrange(0, 8) =~= spec_u64_to_le_bytes(d.len() as u64));
    assert(b.subrange(8, 8 + d.len() as int) =~= d);
}

/// A text is read back from its encoding, whatever follows it.
pub proof fn lemma_text_round_trip(s: Seq<char>, rest: Seq<u8>)
    requires
        encode_utf8(s).len() <= u64::MAX,
    ensures
        parse_text(text_bytes(s) + rest) == Some((s, 8 + encode_utf8(s).len() as int)),
{
    lemma_blob_round_trip(encode_utf8(s), rest);
    encode_utf8_valid_utf8(s);
    encode_utf8_decode_utf8(s);
}

/// Every field is read back from its encoding, whatever follows it.
pub proof fn lemma_field_round_trip(v: FieldValue, rest: Seq<u8>)
    requires
        field_fits(v),
    ensures
        parse_field(field_bytes(v) + rest) == Some((v, field_bytes(v).len() as int)),
{
    reveal(parse_field);
    lemma_auto_spec_u16_to_from_le_bytes();
    lemma_auto_spec_u32_to_from_le_bytes();
    lemma_auto_spec_u64_to_from_le_bytes();
    lemma_auto_spec_u128_to_from_le_bytes();
    let b = field_bytes(v) + rest;
    let p = payload_bytes(v);
    assert(b[0] == field_tag(v));
    assert(b.subrange(1, 1 + p.len() as int) =~= p);
    match v {
        FieldValue::I8(x) => {
            assert((x as u8) as i8 == x) by (bit_vector);
        },
        FieldValue::I16(x) => {
            assert((x as u16) as i16 == x) by (bit_vector);
        },
        FieldValue::I32(x) => {
            assert((x as u32) as i32 == x) by (bit_vector);
        },
        FieldValue::I64(x) => {
            assert((x as u64) as i64 == x) by (bit_vector);
        },
        FieldValue::I128(x) => {
            assert((x as u128) as i128 == x) by (bit_vector);
        },
        FieldValue::Usize(x) => {
            assert(((x as u64) as usize) == x);
        },
        FieldValue::Isize(x) => {
            let y = x as i64;
            assert((y as u64) as i64 == y) by (bit_vector);
            assert((y as isize) == x);
        },
        FieldValue::Char(c) => {
            char_is_scalar(c);
            char_u32_cast(c, c as u32);
        },
        FieldValue::Str(s) => {
            let r1 = b.subrange(1, b.len() as int);
            assert(r1 =~= text_bytes(s) + rest);
            lemma_text_round_trip(s, rest);
        },
        FieldValue::Custom(k, d) => {
            let r1 = b.subrange(1, b.len() as int);
            assert(r1 =~= text_bytes(k) + (blob_bytes(d) + rest));
            lemma_text_round_trip(k, blob_bytes(d) + rest);
            let n = 8 + encode_utf8(k).len();
            assert(r1.subrange(n as int, r1.len() as int) =~= blob_bytes(d) + rest);
            lemma_blob_round_trip(d, rest);
        },
        _ => {},
    }
}

/// Relies on std::str::from_utf8: it accepts exactly the valid UTF-8 byte
/// sequences, and gives the text that they encode.
#[verifier::external_body]
fn text_from_utf8(b: &[u8]) -> (r: Option<String>)
    ensures
        match r {
            Some(s) => valid_utf8(b@) && s@ == decode_utf8(b@),
            None => !valid_utf8(b@),
        },
{
    match std::str::from_utf8(b) {
        Ok(s) => Some(s.to_string()),
        Err(_) => None,
    }
}

/// Relies on char::from_u32: the `char` of a Unicode scalar value, and
/// `None` for any other number.
#[verifier::external_body]
fn char_from_u32(u: u32) -> (r: Option<char>)
    ensures
        r == if is_scalar(u) { Some(u as char) } else { None::<char> },
{
    char::from_u32(u)
}

/// Appends the bytes of `b`.
fn push_all(out: &mut Vec<u8>, b: &[u8])
    ensures
        final(out)@ == old(out)@ + b@,
{
    let mut i: usize = 0;
    while i < b.len()
        invariant
            i <= b@.len(),
            out@ == old(out)@ + b@.take(i as int),
        decreases b@.len() - i,
    {
        out.push(b[i]);
        assert(b@.take(i as int + 1) =~= b@.take(i as int).push(b@[i as int]));
        i = i + 1;
    }
    assert(b@.take(b@.len() as int) =~= b@);
}

/// Appends a byte string.
fn push_blob(out: &mut Vec<u8>, d: &[u8])
    ensures
        final(out)@ == old(out)@ + blob_bytes(d@),
{
    let n = u64_to_le_bytes(d.len() as u64);
    push_all(out, n.as_slice());
    push_all(out, d);
    assert(final(out)@ =~= old(out)@ + blob_bytes(d@));
}

/// Appends a text.
fn push_text(out: &mut Vec<u8>, s: &str)
    ensures
        final(out)@ == old(out)@ + text_bytes(s@),
{
    push_blob(out, s.as_bytes());
}

/// Appends the encoding of `f`.
pub fn encode_field_into(f: &TupleField, out: &mut Vec<u8>)
    ensures
        final(out)@ == old(out)@ + field_bytes(f@),
{
    let ghost start = out@;
    out.push(field_tag_of(f));
    match f {
        TupleField::I8(x) => out.push(*x as u8),
        TupleField::I16(x) => push_all(out, u16_to_le_bytes(*x as u16).as_slice()),
        TupleField::I32(x) => push_all(out, u32_to_le_bytes(*x as u32).as_slice()),
        TupleField::I64(x) => push_all(out, u64_to_le_bytes(*x as u64).as_slice()),
        TupleField::I128(x) => push_all(out, u128_to_le_bytes(*x as u128).as_slice()),
        TupleField::U8(x) => out.push(*x),
        TupleField::U16(x) => push_all(out, u16_to_le_bytes(*x).as_slice()),
        TupleField::U32(x) => push_all(out, u32_to_le_bytes(*x).as_slice()),
        TupleField::U64(x) => push_all(out, u64_to_le_bytes(*x).as_slice()),
        TupleField::U128(x) => push_all(out, u128_to_le_bytes(*x).as_slice()),
        TupleField::Usize(x) => push_all(out, u64_to_le_bytes(*x as u64).as_slice()),
        TupleField::Isize(x) => push_all(out, u64_to_le_bytes(*x as i64 as u64).as_slice()),
        TupleField::Char(c) => push_all(out, u32_to_le_bytes(*c as u32).as_slice()),
        TupleField::Bool(b) => out.push(if *b { 1u8 } else { 0u8 }),
        TupleField::Str(s) => push_text(out, s.as_str()),
        TupleField::Custom(k, d) => {
            push_text(out, k.as_str());
            push_blob(out, d.as_slice());
        },
    }
    assert(out@ =~= start + field_bytes(f@));
}

/// The tag byte of a field.
fn field_tag_of(f: &TupleField) -> (r: u8)
    ensures
        r == field_tag(f@),
{
    match f {
        TupleField::I8(_) => 0,
        TupleField::I16(_) => 1,
        TupleField::I32(_) => 2,
        TupleField::I64(_) => 3,
        TupleField::I128(_) => 4,
        TupleField::U8(_) => 5,
        TupleField::U16(_) => 6,
        TupleField::U32(_) => 7,
        TupleField::U64(_) => 8,
        TupleField::U128(_) => 9,
        TupleField::Usize(_) => 10,
        TupleField::Isize(_) => 11,
        TupleField::Char(_) => 12,
        TupleField::Bool(_) => 13,
        TupleField::Str(_) => 14,
        TupleField::Custom(_, _) => 15,
    }
}

/// The `k` bytes after the tag byte at `pos`, if `b` holds them.
fn read_fixed(b: &[u8], pos: usize, k: usize) -> (r: Option<&[u8]>)
    requires
        pos < b@.len(),
    ensures
        match fixed(b@.subrange(pos as int, b@.len() as int), k as int) {
            Some(p) => r is Some && r->Some_0@ == p,
            None => r is None,
        },
{
    if b.len() - pos - 1 < k {
        None
    } else {
        let p = slice_subrange(b, pos + 1, pos + 1 + k);
        assert(p@ =~= b@.subrange(pos as int, b@.len() as int).subrange(1, 1 + k as int));
        Some(p)
    }
}

/// Reads the byte string at `pos`: where its data starts and where it ends.
fn read_blob(b: &[u8], pos: usize) -> (r: Option<(usize, usize)>)
    requires
        pos <= b@.len(),
    ensures
        match parse_blob(b@.subrange(pos as int, b@.len() as int)) {
            Some((d, n)) => r is Some && r->Some_0.0 == pos + 8 && r->Some_0.1 == pos + n
                && pos + n <= b@.len() && d == b@.subrange(pos + 8, pos + n),
            None => r is None,
        },
{
    let ghost s = b@.subrange(pos as int, b@.len() as int);
    if b.len() - pos < 8 {
        return None;
    }
    let nb = slice_subrange(b, pos, pos + 8);
    assert(nb@ =~= s.subrange(0, 8));
    let n = u64_from_le_bytes(nb);
    if ((b.len() - pos - 8) as u64) < n {
        return None;
    }
    let end = pos + 8 + n as usize;
    assert(s.subrange(8, 8 + n as int) =~= b@.subrange(pos + 8, end as int));
    Some((pos + 8, end))
}

/// Reads the text at `pos`: the text and where it ends.
fn read_text(b: &[u8], pos: usize) -> (r: Option<(String, usize)>)
    requires
        pos <= b@.len(),
    ensures
        match parse_text(b@.subrange(pos as int, b@.len() as int)) {
            Some((t, n)) => r is Some && r->Some_0.0@ == t && r->Some_0.1 == pos + n && pos + n <= b@.len(),
            None => r is None,
        },
{
    match read_blob(b, pos) {
        None => None,
        Some((start, end)) => match text_from_utf8(slice_subrange(b, start, end)) {
            Some(t) => Some((t, end)),
            None => None,
        },
    }
}

/// Reads the field encoded at `pos`: the field and where its encoding ends.
pub fn decode_field(b: &[u8], pos: usize) -> (r: Option<(TupleField, usize)>)
    requires
        pos <= b@.len(),
    ensures
        match parse_field(b@.subrange(pos as int, b@.len() as int)) {
            Some((v, n)) => r is Some && r->Some_0.0@ == v && r->Some_0.1 == pos + n && pos + n <= b@.len(),
            None => r is None,
        },
        r is Some ==> pos < r->Some_0.1 <= b@.len(),
{
    reveal(parse_field);
    let ghost s = b@.subrange(pos as int, b@.len() as int);
    if pos == b.len() {
        return None;
    }
    let tag = b[pos];
    assert(s[0] == tag);
    if tag == 0 {
        match read_fixed(b, pos, 1) { Some(p) => Some((TupleField::I8(p[0] as i8), pos + 2)), None => None }
    } else if tag == 1 {
        match read_fixed(b, pos, 2) { Some(p) => Some((TupleField::I16(u16_from_le_bytes(p) as i16), pos + 3)), None => None }
    } else if tag == 2 {
        match read_fixed(b, pos, 4) { Some(p) => Some((TupleField::I32(u32_from_le_bytes(p) as i32), pos + 5)), None => None }
    } else if tag == 3 {
        match read_fixed(b, pos, 8) { Some(p) => Some((TupleField::I64(u64_from_le_bytes(p) as i64), pos + 9)), None => None }
    } else if tag == 4 {
        match read_fixed(b, pos, 16) { Some(p) => Some((TupleField::I128(u128_from_le_bytes(p) as i128), pos + 17)), None => None }
    } else if tag == 5 {
        match read_fixed(b, pos, 1) { Some(p) => Some((TupleField::U8(p[0]), pos + 2)), None => None }
    } else if tag == 6 {
        match read_fixed(b, pos, 2) { Some(p) => Some((TupleField::U16(u16_from_le_bytes(p)), pos + 3)), None => None }
    } else if tag == 7 {
        match read_fixed(b, pos, 4) { Some(p) => Some((TupleField::U32(u32_from_le_bytes(p)), pos + 5)), None => None }
    } else if tag == 8 {
        match read_fixed(b, pos, 8) { Some(p) => Some((TupleField::U64(u64_from_le_bytes(p)), pos + 9)), None => None }
    } else if tag == 9 {
        match read_fixed(b, pos, 16) { Some(p) => Some((TupleField::U128(u128_from_le_bytes(p)), pos + 17)), None => None }
    } else if tag == 10 {
        match read_fixed(b, pos, 8) {
            Some(p) => {
                let x = u64_from_le_bytes(p);
                if (x as usize) as u64 == x { Some((TupleField::Usize(x as usize), pos + 9)) } else { None }
            },
            None => None,
        }
    } else if tag == 11 {
        match read_fixed(b, pos, 8) {
            Some(p) => {
                let x = u64_from_le_bytes(p) as i64;
                if (x as isize) as i64 == x { Some((TupleField::Isize(x as isize), pos + 9)) } else { None }
            },
            None => None,
        }
    } else if tag == 12 {
        match read_fixed(b, pos, 4) {
            Some(p) => match char_from_u32(u32_from_le_bytes(p)) {
                Some(c) => Some((TupleField::Char(c), pos + 5)),
                None => None,
            },
            None => None,
        }
    } else if tag == 13 {
        match read_fixed(b, pos, 1) {
            Some(p) => if p[0] == 0 {
                Some((TupleField::Bool(false), pos + 2))
            } else if p[0] == 1 {
                Some((TupleField::Bool(true), pos + 2))
            } else {
                None
            },
            None => None,
        }
    } else if tag == 14 {
        assert(b@.subrange(pos + 1, b@.len() as int) =~= s.subrange(1, s.len() as int));
        match read_text(b, pos + 1) {
            Some((t, end)) => Some((TupleField::Str(t), end)),
            None => None,
        }
    } else if tag == 15 {
        let ghost rest = s.subrange(1, s.len() as int);
        assert(b@.subrange(pos + 1, b@.len() as int) =~= rest);
        match read_text(b, pos + 1) {
            Some((k, mid)) => {
                assert(b@.subrange(mid as int, b@.len() as int) =~= rest.subrange(mid - pos - 1, rest.len() as int));
                match read_blob(b, mid) {
                    Some((start, end)) => {
                        let d = vstd::slice::slice_to_vec(slice_subrange(b, start, end));
                        Some((TupleField::Custom(k, d), end))
                    },
                    None => None,
                }
            },
            None => None,
        }
    } else {
        None
    }
}

// A sequence is written as its items one after the other; a tuple, a
// template and a list of tuples are each preceded by their length in eight
// bytes. A template element is its field and one byte for its mode, 0 for
// `Actual` and 1 for `Formal`. A message is one byte for its action, its
// list of tuples and its template.

/// The encodings of the items of `s`, one after the other.
pub open spec fn concat_map<A>(s: Seq<A>, f: spec_fn(A) -> Seq<u8>) -> Seq<u8>
    decreases s.len(),
{
    if s.len() == 0 {
        Seq::empty()
    } else {
        concat_map(s.drop_last(), f) + f(s.last())
    }
}

/// Reads `count` items one after the other with `p`: the items and how many
/// bytes were read.
pub open spec fn parse_seq<A>(b: Seq<u8>, count: nat, p: spec_fn(Seq<u8>) -> Option<(A, int)>) -> Option<(Seq<A>, int)>
    decreases count,
{
    if count == 0 {
        Some((Seq::empty(), 0))
    } else {
        match parse_seq(b, (count - 1) as nat, p) {
            Some((xs, n)) => match p(b.subrange(n, b.len() as int)) {
                Some((x, m)) => Some((xs.push(x), n + m)),
                None => None,
            },
            None => None,
        }
    }
}

/// A sequence is read back from the encodings of its items, whatever
/// follows, where each item is read back from its own encoding.
pub proof fn lemma_seq_round_trip<A>(
    s: Seq<A>,
    f: spec_fn(A) -> Seq<u8>,
    p: spec_fn(Seq<u8>) -> Option<(A, int)>,
    rest: Seq<u8>,
)
    requires
        forall|x: A, r: Seq<u8>| s.contains(x) ==> #[trigger] p(f(x) + r) == Some((x, f(x).len() as int)),
    ensures
        parse_seq(concat_map(s, f) + rest, s.len(), p) == Some((s, concat_map(s, f).len() as int)),
    decreases s.len(),
{
    if s.len() > 0 {
        let s1 = s.drop_last();
        let x = s.last();
        assert forall|y: A, r: Seq<u8>| s1.contains(y) implies #[trigger] p(f(y) + r) == Some((y, f(y).len() as int)) by {
            let k = choose|k: int| 0 <= k < s1.len() && s1[k] == y;
            assert(s[k] == y);
        }
        lemma_seq_round_trip(s1, f, p, f(x) + rest);
        let b = concat_map(s, f) + rest;
        assert(concat_map(s1, f) + (f(x) + rest) =~= b);
        let n = concat_map(s1, f).len() as int;
        assert(b.subrange(n, b.len() as int) =~= f(x) + rest);
        assert(s.contains(x));
        assert(s1.push(x) =~= s);
    }
}

/// Once reading a sequence fails, reading a longer one fails too.
pub proof fn lemma_parse_seq_fails<A>(b: Seq<u8>, c1: nat, c2: nat, p: spec_fn(Seq<u8>) -> Option<(A, int)>)
    requires
        c1 <= c2,
        parse_seq(b, c1, p) is None,
    ensures
        parse_seq(b, c2, p) is None,
    decreases c2,
{
    if c1 < c2 {
        lemma_parse_seq_fails(b, c1, (c2 - 1) as nat, p);
    }
}

/// Reads a length in eight bytes and then that many items with `p`.
pub open spec fn parse_counted<A>(b: Seq<u8>, p: spec_fn(Seq<u8>) -> Option<(A, int)>) -> Option<(Seq<A>, int)> {
    if b.len() < 8 {
        None
    } else {
        let count = spec_u64_from_le_bytes(b.subrange(0, 8)) as nat;
        match parse_seq(b.subrange(8, b.len() as int), count, p) {
            Some((xs, n)) => Some((xs, 8 + n)),
            None => None,
        }
    }
}

/// Writes a length in eight bytes and the encodings of the items.
pub open spec fn counted_bytes<A>(s: Seq<A>, f: spec_fn(A) -> Seq<u8>) -> Seq<u8> {
    spec_u64_to_le_bytes(s.len() as u64) + concat_map(s, f)
}

/// A counted sequence is read back from its encoding, whatever follows.
pub proof fn lemma_counted_round_trip<A>(
    s: Seq<A>,
    f: spec_fn(A) -> Seq<u8>,
    p: spec_fn(Seq<u8>) -> Option<(A, int)>,
    rest: Seq<u8>,
)
    requires
        s.len() <= u64::MAX,
        forall|x: A, r: Seq<u8>| s.contains(x) ==> #[trigger] p(f(x) + r) == Some((x, f(x).len() as int)),
    ensures
        parse_counted(counted_bytes(s, f) + rest, p) == Some((s, counted_bytes(s, f).len() as int)),
{
    lemma_auto_spec_u64_to_from_le_bytes();
    lemma_seq_round_trip(s, f, p, rest);
    let b = counted_bytes(s, f) + rest;
    assert(b.subrange(0, 8) =~= spec_u64_to_le_bytes(s.len() as u64));
    assert(b.subrange(8, b.len() as int) =~= concat_map(s, f) + rest);
}

/// The encoding of a field, as a function.
pub open spec fn field_encoder() -> spec_fn(FieldValue) -> Seq<u8> {
    |v: FieldValue| field_bytes(v)
}

/// The reader of a field, as a function.
pub open spec fn field_parser() -> spec_fn(Seq<u8>) -> Option<(FieldValue, int)> {
    |b: Seq<u8>| parse_field(b)
}

/// The encoding of a tuple: its length and its fields.
pub open spec fn tuple_bytes(t: Seq<FieldValue>) -> Seq<u8> {
    counted_bytes(t, field_encoder())
}

/// Reads a tuple at the start of `b`.
pub open spec fn parse_tuple(b: Seq<u8>) -> Option<(Seq<FieldValue>, int)> {
    parse_counted(b, field_parser())
}

/// The lengths in a tuple fit the bytes that hold them.
pub open spec fn tuple_fits(t: Seq<FieldValue>) -> bool {
    &&& t.len() <= u64::MAX
    &&& forall|i: int| 0 <= i < t.len() ==> field_fits(#[trigger] t[i])
}

/// Every tuple is read back from its encoding, whatever follows it.
pub proof fn lemma_tuple_round_trip(t: Seq<FieldValue>, rest: Seq<u8>)
    requires
        tuple_fits(t),
    ensures
        parse_tuple(tuple_bytes(t) + rest) == Some((t, tuple_bytes(t).len() as int)),
{
    assert forall|x: FieldValue, r: Seq<u8>| t.contains(x) implies #[trigger] field_parser()(field_encoder()(x) + r) == Some((x, field_encoder()(x).len() as int)) by {
        lemma_field_round_trip(x, r);
    }
    lemma_counted_round_trip(t, field_encoder(), field_parser(), rest);
}

/// The byte of a mode.
pub open spec fn mode_byte(m: TemplateType) -> u8 {
    match m {
        TemplateType::Actual => 0,
        TemplateType::Formal => 1,
    }
}

/// The encoding of a template element: its field and its mode.
pub open spec fn element_bytes(e: (FieldValue, TemplateType)) -> Seq<u8> {
    field_bytes(e.0) + seq![mode_byte(e.1)]
}

/// Reads a template element at the start of `b`.
pub open spec fn parse_element(b: Seq<u8>) -> Option<((FieldValue, TemplateType), int)> {
    match parse_field(b) {
        Some((v, n)) => if n < b.len() && b[n] == 0 {
            Some(((v, TemplateType::Actual), n + 1))
        } else if n < b.len() && b[n] == 1 {
            Some(((v, TemplateType::Formal), n + 1))
        } else {
            None
        },
        None => None,
    }
}

/// The encoding of a template: its length and its elements.
pub open spec fn template_bytes(q: TemplateValue) -> Seq<u8> {
    counted_bytes(q, |e: (FieldValue, TemplateType)| element_bytes(e))
}

/// Reads a template at the start of `b`.
pub open spec fn parse_template(b: Seq<u8>) -> Option<(TemplateValue, int)> {
    parse_counted(b, |b: Seq<u8>| parse_element(b))
}

/// The lengths in a template fit the bytes that hold them.
pub open spec fn template_fits(q: TemplateValue) -> bool {
    &&& q.len() <= u64::MAX
    &&& forall|i: int| 0 <= i < q.len() ==> field_fits(#[trigger] q[i].0)
}

/// A template element is read back from its encoding, whatever follows.
pub proof fn lemma_element_round_trip(e: (FieldValue, TemplateType), rest: Seq<u8>)
    requires
        field_fits(e.0),
    ensures
        parse_element(element_bytes(e) + rest) == Some((e, element_bytes(e).len() as int)),
{
    let b = element_bytes(e) + rest;
    assert(b =~= field_bytes(e.0) + (seq![mode_byte(e.1)] + rest));
    lemma_field_round_trip(e.0, seq![mode_byte(e.1)] + rest);
    assert(b[field_bytes(e.0).len() as int] == mode_byte(e.1));
}

/// Every template is read back from its encoding, whatever follows it.
pub proof fn lemma_template_round_trip(q: TemplateValue, rest: Seq<u8>)
    requires
        template_fits(q),
    ensures
        parse_template(template_bytes(q) + rest) == Some((q, template_bytes(q).len() as int)),
{
    let f = |e: (FieldValue, TemplateType)| element_bytes(e);
    let p = |b: Seq<u8>| parse_element(b);
    assert forall|x: (FieldValue, TemplateType), r: Seq<u8>| q.contains(x) implies #[trigger] p(f(x) + r) == Some((x, f(x).len() as int)) by {
        let k = choose|k: int| 0 <= k < q.len() && q[k] == x;
        assert(field_fits(q[k].0));
        lemma_element_round_trip(x, r);
    }
    lemma_counted_round_trip(q, f, p, rest);
}

/// The encoding of a tuple, as a function.
pub open spec fn tuple_encoder() -> spec_fn(Seq<FieldValue>) -> Seq<u8> {
    |t: Seq<FieldValue>| tuple_bytes(t)
}

/// The reader of a tuple, as a function.
pub open spec fn tuple_parser() -> spec_fn(Seq<u8>) -> Option<(Seq<FieldValue>, int)> {
    |b: Seq<u8>| parse_tuple(b)
}

/// The tag byte of an action.
pub open spec fn action_tag(a: MessageType) -> u8 {
    match a {
        MessageType::Get => 0,
        MessageType::Getp => 1,
        MessageType::Getall => 2,
        MessageType::Query => 3,
        MessageType::Queryp => 4,
        MessageType::Queryall => 5,
        MessageType::Put => 6,
        MessageType::Error => 7,
        MessageType::Success => 8,
    }
}

/// The action of a tag byte.
pub open spec fn action_of(t: u8) -> Option<MessageType> {
    if t == 0 {
        Some(MessageType::Get)
    } else if t == 1 {
        Some(MessageType::Getp)
    } else if t == 2 {
        Some(MessageType::Getall)
    } else if t == 3 {
        Some(MessageType::Query)
    } else if t == 4 {
        Some(MessageType::Queryp)
    } else if t == 5 {
        Some(MessageType::Queryall)
    } else if t == 6 {
        Some(MessageType::Put)
    } else if t == 7 {
        Some(MessageType::Error)
    } else if t == 8 {
        Some(MessageType::Success)
    } else {
        None
    }
}

/// The encoding of a message: its action, its tuples and its template.
pub open spec fn message_bytes(m: MessageValue) -> Seq<u8> {
    seq![action_tag(m.action)] + counted_bytes(m.tuples, tuple_encoder()) + template_bytes(m.template)
}

/// Reads a message that fills all of `b`.
pub open spec fn parse_message(b: Seq<u8>) -> Option<MessageValue> {
    if b.len() == 0 {
        None
    } else {
        match action_of(b[0]) {
            Some(action) => {
                let b1 = b.subrange(1, b.len() as int);
                match parse_counted(b1, tuple_parser()) {
                    Some((tuples, n)) => match parse_template(b1.subrange(n, b1.len() as int)) {
                        Some((template, m)) => if n + m == b1.len() {
                            Some(MessageValue { action, tuples, template })
                        } else {
                            None
                        },
                        None => None,
                    },
                    None => None,
                }
            },
            None => None,
        }
    }
}

/// The lengths in a message fit the bytes that hold them.
pub open spec fn message_fits(m: MessageValue) -> bool {
    &&& m.tuples.len() <= u64::MAX
    &&& forall|i: int| 0 <= i < m.tuples.len() ==> tuple_fits(#[trigger] m.tuples[i])
    &&& template_fits(m.template)
}

/// Every message is read back from its encoding.
pub proof fn lemma_message_round_trip(m: MessageValue)
    requires
        message_fits(m),
    ensures
        parse_message(message_bytes(m)) == Some(m),
{
    let b = message_bytes(m);
    let tb = counted_bytes(m.tuples, tuple_encoder());
    let qb = template_bytes(m.template);
    let b1 = b.subrange(1, b.len() as int);
    assert(b1 =~= tb + qb);
    assert forall|x: Seq<FieldValue>, r: Seq<u8>| m.tuples.contains(x) implies #[trigger] tuple_parser()(tuple_encoder()(x) + r) == Some((x, tuple_encoder()(x).len() as int)) by {
        let k = choose|k: int| 0 <= k < m.tuples.len() && m.tuples[k] == x;
        assert(tuple_fits(m.tuples[k]));
        lemma_tuple_round_trip(x, r);
    }
    lemma_counted_round_trip(m.tuples, tuple_encoder(), tuple_parser(), qb);
    assert(b1.subrange(tb.len() as int, b1.len() as int) =~= qb + Seq::<u8>::empty());
    lemma_template_round_trip(m.template, Seq::<u8>::empty());
    assert(qb + Seq::<u8>::empty() =~= qb);
}

/// The concatenation over one more item.
proof fn lemma_concat_map_take<A>(s: Seq<A>, f: spec_fn(A) -> Seq<u8>, i: int)
    requires
        0 <= i < s.len(),
    ensures
        concat_map(s.take(i + 1), f) == concat_map(s.take(i), f) + f(s[i]),
{
    assert(s.take(i + 1).drop_last() =~= s.take(i));
}

/// Appends the encoding of a tuple.
pub fn encode_tuple_into(t: &Tuple, out: &mut Vec<u8>)
    ensures
        final(out)@ == old(out)@ + tuple_bytes(t@),
{
    let ghost start = out@;
    push_all(out, u64_to_le_bytes(t.fields.len() as u64).as_slice());
    let mut i: usize = 0;
    while i < t.fields.len()
        invariant
            i <= t@.len(),
            t@.len() == t.fields@.len(),
            out@ == start + spec_u64_to_le_bytes(t@.len() as u64) + concat_map(t@.take(i as int), field_encoder()),
        decreases t@.len() - i,
    {
        proof {
            lemma_concat_map_take(t@, field_encoder(), i as int);
        }
        encode_field_into(&t.fields[i], out);
        assert(out@ =~= start + spec_u64_to_le_bytes(t@.len() as u64) + concat_map(t@.take(i as int + 1), field_encoder()));
        i = i + 1;
    }
    assert(t@.take(t@.len() as int) =~= t@);
    assert(out@ =~= start + tuple_bytes(t@));
}

/// The encoding of a tuple.
pub fn encode_tuple(t: &Tuple) -> (r: Vec<u8>)
    ensures
        r@ == tuple_bytes(t@),
{
    let mut out: Vec<u8> = Vec::new();
    encode_tuple_into(t, &mut out);
    assert(out@ =~= tuple_bytes(t@));
    out
}

/// Reads a length in eight bytes at `pos`.
fn read_count(b: &[u8], pos: usize) -> (r: Option<u64>)
    requires
        pos <= b@.len(),
    ensures
        r is Some <==> b@.len() - pos >= 8,
        r is Some ==> r->Some_0 == spec_u64_from_le_bytes(b@.subrange(pos as int, b@.len() as int).subrange(0, 8)),
{
    if b.len() - pos < 8 {
        None
    } else {
        let nb = slice_subrange(b, pos, pos + 8);
        assert(nb@ =~= b@.subrange(pos as int, b@.len() as int).subrange(0, 8));
        Some(u64_from_le_bytes(nb))
    }
}

/// Reads the tuple encoded at `pos`: the tuple and where its encoding ends.
pub fn decode_tuple_at(b: &[u8], pos: usize) -> (r: Option<(Tuple, usize)>)
    requires
        pos <= b@.len(),
    ensures
        match parse_tuple(b@.subrange(pos as int, b@.len() as int)) {
            Some((t, n)) => r is Some && r->Some_0.0@ == t && r->Some_0.1 == pos + n && pos + n <= b@.len(),
            None => r is None,
        },
        r is Some ==> pos + 8 <= r->Some_0.1 <= b@.len(),
{
    let ghost s = b@.subrange(pos as int, b@.len() as int);
    let blen = b.len();
    let count = match read_count(b, pos) {
        Some(c) => c,
        None => return None,
    };
    let ghost s8 = s.subrange(8, s.len() as int);
    let mut fields: Vec<TupleField> = Vec::new();
    let mut cur: usize = pos + 8;
    let mut k: u64 = 0;
    while k < count
        invariant
            pos + 8 <= cur <= b@.len(),
            k <= count,
            s == b@.subrange(pos as int, b@.len() as int),
            s8 == s.subrange(8, s.len() as int),
            s.len() >= 8,
            count == spec_u64_from_le_bytes(s.subrange(0, 8)),
            parse_seq(s8, k as nat, field_parser()) == Some((field_values(fields@), cur - pos - 8)),
        decreases count - k,
    {
        let ghost rest = s8.subrange(cur - pos - 8, s8.len() as int);
        assert(b@.subrange(cur as int, b@.len() as int) =~= rest);
        match decode_field(b, cur) {
            Some((f, end)) => {
                assert(parse_seq(s8, (k + 1) as nat, field_parser()) == Some((field_values(fields@).push(f@), end - pos - 8)));
                let ghost before = fields@;
                fields.push(f);
                assert(field_values(fields@) =~= field_values(before).push(f@));
                cur = end;
                k = k + 1;
            },
            None => {
                proof {
                    assert(parse_field(rest) is None);
                    assert(parse_seq(s8, (k + 1) as nat, field_parser()) is None);
                    lemma_parse_seq_fails(s8, (k + 1) as nat, count as nat, field_parser());
                    assert(s.len() >= 8);
                    assert(count as nat == spec_u64_from_le_bytes(s.subrange(0, 8)) as nat);
                    assert(parse_counted(s, field_parser()) is None);
                }
                return None;
            },
        }
    }
    Some((Tuple { fields }, cur))
}

/// The tuple that fills all of `b`, if `b` encodes one.
pub fn decode_tuple(b: &[u8]) -> (r: Option<Tuple>)
    ensures
        match parse_tuple(b@) {
            Some((t, n)) => if n == b@.len() { r is Some && r->Some_0@ == t } else { r is None },
            None => r is None,
        },
{
    assert(b@.subrange(0, b@.len() as int) =~= b@);
    match decode_tuple_at(b, 0) {
        Some((t, end)) => if end == b.len() { Some(t) } else { None },
        None => None,
    }
}

/// Appends the encoding of a template.
pub fn encode_template_into(q: &Template, out: &mut Vec<u8>)
    ensures
        final(out)@ == old(out)@ + template_bytes(q@),
{
    let ghost start = out@;
    let ghost f = |e: (FieldValue, TemplateType)| element_bytes(e);
    push_all(out, u64_to_le_bytes(q.fields.len() as u64).as_slice());
    let mut i: usize = 0;
    while i < q.fields.len()
        invariant
            i <= q@.len(),
            q@.len() == q.fields@.len(),
            f == |e: (FieldValue, TemplateType)| element_bytes(e),
            out@ == start + spec_u64_to_le_bytes(q@.len() as u64) + concat_map(q@.take(i as int), f),
        decreases q@.len() - i,
    {
        proof {
            lemma_concat_map_take(q@, f, i as int);
        }
        let e = &q.fields[i];
        assert(q@[i as int] == (e.0@, e.1));
        encode_field_into(&e.0, out);
        out.push(match e.1 {
            TemplateType::Actual => 0u8,
            TemplateType::Formal => 1u8,
        });
        assert(out@ =~= start + spec_u64_to_le_bytes(q@.len() as u64) + concat_map(q@.take(i as int + 1), f));
        i = i + 1;
    }
    assert(q@.take(q@.len() as int) =~= q@);
    assert(out@ =~= start + template_bytes(q@));
}

/// The encoding of a template.
pub fn encode_template(q: &Template) -> (r: Vec<u8>)
    ensures
        r@ == template_bytes(q@),
{
    let mut out: Vec<u8> = Vec::new();
    encode_template_into(q, &mut out);
    assert(out@ =~= template_bytes(q@));
    out
}

/// Reads the template encoded at `pos`: the template and where its encoding
/// ends.
pub fn decode_template_at(b: &[u8], pos: usize) -> (r: Option<(Template, usize)>)
    requires
        pos <= b@.len(),
    ensures
        match parse_template(b@.subrange(pos as int, b@.len() as int)) {
            Some((q, n)) => r is Some && r->Some_0.0@ == q && r->Some_0.1 == pos + n && pos + n <= b@.len(),
            None => r is None,
        },
        r is Some ==> pos + 8 <= r->Some_0.1 <= b@.len(),
{
    let ghost s = b@.subrange(pos as int, b@.len() as int);
    let ghost p = |b: Seq<u8>| parse_element(b);
    let blen = b.len();
    let count = match read_count(b, pos) {
        Some(c) => c,
        None => return None,
    };
    let ghost s8 = s.subrange(8, s.len() as int);
    let mut fields: Vec<(TupleField, TemplateType)> = Vec::new();
    let mut cur: usize = pos + 8;
    let mut k: u64 = 0;
    while k < count
        invariant
            pos + 8 <= cur <= b@.len(),
            k <= count,
            s == b@.subrange(pos as int, b@.len() as int),
            s8 == s.subrange(8, s.len() as int),
            s.len() >= 8,
            count == spec_u64_from_le_bytes(s.subrange(0, 8)),
            p == |b: Seq<u8>| parse_element(b),
            parse_seq(s8, k as nat, p) == Some((element_values(fields@), cur - pos - 8)),
        decreases count - k,
    {
        let ghost rest = s8.subrange(cur - pos - 8, s8.len() as int);
        assert(b@.subrange(cur as int, b@.len() as int) =~= rest);
        match decode_field(b, cur) {
            Some((f, end)) => {
                let ghost n = end - cur;
                if end < b.len() && (b[end] == 0 || b[end] == 1) {
                    assert(rest[n] == b@[end as int]);
                    let mode = if b[end] == 0 { TemplateType::Actual } else { TemplateType::Formal };
                    let ghost before = fields@;
                    let ghost fv = f@;
                    fields.push((f, mode));
                    assert(element_values(fields@) =~= element_values(before).push((fv, mode)));
                    cur = end + 1;
                    k = k + 1;
                } else {
                    proof {
                        if end < b.len() {
                            assert(rest[n] == b@[end as int]);
                        }
                        lemma_parse_seq_fails(s8, (k + 1) as nat, count as nat, p);
                    }
                    return None;
                }
            },
            None => {
                proof {
                    lemma_parse_seq_fails(s8, (k + 1) as nat, count as nat, p);
                }
                return None;
            },
        }
    }
    Some((Template { fields }, cur))
}

/// The template that fills all of `b`, if `b` encodes one.
pub fn decode_template(b: &[u8]) -> (r: Option<Template>)
    ensures
        match parse_template(b@) {
            Some((q, n)) => if n == b@.len() { r is Some && r->Some_0@ == q } else { r is None },
            None => r is None,
        },
{
    assert(b@.subrange(0, b@.len() as int) =~= b@);
    match decode_template_at(b, 0) {
        Some((q, end)) => if end == b.len() { Some(q) } else { None },
        None => None,
    }
}

/// A template read back from its encoding matches exactly the tuples that
/// the template itself matches.
pub proof fn lemma_template_codec_keeps_matching(q: TemplateValue, t: Seq<FieldValue>)
    requires
        template_fits(q),
    ensures
        parse_template(template_bytes(q)) matches Some((q2, n)) && n == template_bytes(q).len()
            && template_matches(q2, t) == template_matches(q, t),
{
    lemma_template_round_trip(q, Seq::<u8>::empty());
    assert(template_bytes(q) + Seq::<u8>::empty() =~= template_bytes(q));
}

/// The tag byte of an action.
fn action_tag_of(a: MessageType) -> (r: u8)
    ensures
        r == action_tag(a),
{
    match a {
        MessageType::Get => 0,
        MessageType::Getp => 1,
        MessageType::Getall => 2,
        MessageType::Query => 3,
        MessageType::Queryp => 4,
        MessageType::Queryall => 5,
        MessageType::Put => 6,
        MessageType::Error => 7,
        MessageType::Success => 8,
    }
}

/// The action of a tag byte.
fn action_from_tag(t: u8) -> (r: Option<MessageType>)
    ensures
        r == action_of(t),
{
    if t == 0 {
        Some(MessageType::Get)
    } else if t == 1 {
        Some(MessageType::Getp)
    } else if t == 2 {
        Some(MessageType::Getall)
    } else if t == 3 {
        Some(MessageType::Query)
    } else if t == 4 {
        Some(MessageType::Queryp)
    } else if t == 5 {
        Some(MessageType::Queryall)
    } else if t == 6 {
        Some(MessageType::Put)
    } else if t == 7 {
        Some(MessageType::Error)
    } else if t == 8 {
        Some(MessageType::Success)
    } else {
        None
    }
}

/// The encoding of a message.
pub fn encode_message(m: &Message) -> (r: Vec<u8>)
    ensures
        r@ == message_bytes(m@),
{
    let mut out: Vec<u8> = Vec::new();
    out.push(action_tag_of(m.action));
    let ghost start = out@;
    let ghost ts = tuple_values(m.tuple@);
    push_all(&mut out, u64_to_le_bytes(m.tuple.len() as u64).as_slice());
    let mut i: usize = 0;
    while i < m.tuple.len()
        invariant
            i <= m.tuple@.len(),
            ts == tuple_values(m.tuple@),
            out@ == start + spec_u64_to_le_bytes(ts.len() as u64) + concat_map(ts.take(i as int), tuple_encoder()),
        decreases m.tuple@.len() - i,
    {
        proof {
            lemma_concat_map_take(ts, tuple_encoder(), i as int);
        }
        encode_tuple_into(&m.tuple[i], &mut out);
        assert(out@ =~= start + spec_u64_to_le_bytes(ts.len() as u64) + concat_map(ts.take(i as int + 1), tuple_encoder()));
        i = i + 1;
    }
    assert(ts.take(ts.len() as int) =~= ts);
    encode_template_into(&m.template, &mut out);
    assert(out@ =~= message_bytes(m@));
    out
}

/// Reads the list of tuples encoded at `pos`: the tuples and where the
/// encoding ends.
fn decode_tuples_at(b: &[u8], pos: usize) -> (r: Option<(Vec<Tuple>, usize)>)
    requires
        pos <= b@.len(),
    ensures
        match parse_counted(b@.subrange(pos as int, b@.len() as int), tuple_parser()) {
            Some((ts, n)) => r is Some && tuple_values(r->Some_0.0@) == ts && r->Some_0.1 == pos + n && pos + n <= b@.len(),
            None => r is None,
        },
        r is Some ==> pos + 8 <= r->Some_0.1 <= b@.len(),
{
    let ghost s = b@.subrange(pos as int, b@.len() as int);
    let blen = b.len();
    let count = match read_count(b, pos) {
        Some(c) => c,
        None => return None,
    };
    let ghost s8 = s.subrange(8, s.len() as int);
    let mut tuples: Vec<Tuple> = Vec::new();
    let mut cur: usize = pos + 8;
    let mut k: u64 = 0;
    while k < count
        invariant
            pos + 8 <= cur <= b@.len(),
            k <= count,
            s == b@.subrange(pos as int, b@.len() as int),
            s8 == s.subrange(8, s.len() as int),
            s.len() >= 8,
            count == spec_u64_from_le_bytes(s.subrange(0, 8)),
            parse_seq(s8, k as nat, tuple_parser()) == Some((tuple_values(tuples@), cur - pos - 8)),
        decreases count - k,
    {
        let ghost rest = s8.subrange(cur - pos - 8, s8.len() as int);
        assert(b@.subrange(cur as int, b@.len() as int) =~= rest);
        match decode_tuple_at(b, cur) {
            Some((t, end)) => {
                let ghost before = tuples@;
                tuples.push(t);
                assert(tuple_values(tuples@) =~= tuple_values(before).push(t@));
                cur = end;
                k = k + 1;
            },
            None => {
                proof {
                    lemma_parse_seq_fails(s8, (k + 1) as nat, count as nat, tuple_parser());
                }
                return None;
            },
        }
    }
    Some((tuples, cur))
}

/// The message that fills all of `b`, if `b` encodes one.
pub fn decode_message(b: &[u8]) -> (r: Option<Message>)
    ensures
        match parse_message(b@) {
            Some(m) => r is Some && r->Some_0@ == m,
            None => r is None,
        },
{
    if b.len() == 0 {
        return None;
    }
    let action = match action_from_tag(b[0]) {
        Some(a) => a,
        None => return None,
    };
    let ghost b1 = b@.subrange(1, b@.len() as int);
    match decode_tuples_at(b, 1) {
        None => None,
        Some((tuple, mid)) => {
            assert(b@.subrange(mid as int, b@.len() as int) =~= b1.subrange(mid - 1, b1.len() as int));
            match decode_template_at(b, mid) {
                None => None,
                Some((template, end)) => if end == b.len() {
                    Some(Message { action, tuple, template })
                } else {
                    None
                },
            }
        },
    }
}

/// The number of bytes that give the length of a frame.
pub const FRAME_HEADER: usize = 8;

/// A message as it goes on the wire: the byte string of its encoding.
pub fn encode_frame(m: &Message) -> (r: Vec<u8>)
    ensures
        r@ == blob_bytes(message_bytes(m@)),
{
    let payload = encode_message(m);
    let mut out: Vec<u8> = Vec::new();
    push_blob(&mut out, payload.as_slice());
    assert(out@ =~= blob_bytes(message_bytes(m@)));
    out
}

/// The length of the payload that follows a frame header.
pub fn frame_length(header: &[u8]) -> (r: u64)
    requires
        header@.len() == FRAME_HEADER,
    ensures
        r == spec_u64_from_le_bytes(header@),
{
    u64_from_le_bytes(header)
}

} // verus!
