use vstd::prelude::*;
use vstd::string::StringSliceAdditionalSpecFns;
use vstd::utf8::*;

use super::float::{widen_f32, widen_f32_bits};
use super::value::{
    dict_index_of, dict_insert, entries_view, items_view, lemma_dict_index_of_bounds, lemma_entries_view, lemma_entries_view_ext, lemma_items_view,
    lemma_items_view_ext, Value, ValueView,
};
use super::{
    ARRAY16, ARRAY32, FALSE, FLOAT32, FLOAT64, INT16, INT32, INT64, INT8, MAP16, MAP32, NIL, STR16,
    STR32, STR8, TRUE, UINT16, UINT32, UINT64, UINT8, MsgPack,
};
use crate::error::CordError;
use crate::protocol::error::ProtocolError;
use crate::util::text::{lemma_decode_of_bytes, str_from_utf8};

verus! {

/// The outcome of decoding something that starts at a position of the input.
pub enum Decoded<T> {
    /// The decoded thing, and the position just after it.
    Done(T, int),
    /// The input is rejected with this error.
    Failed(ProtocolError),
    /// Decoding would read past the end of the input: a one-byte-length
    /// string header is the last byte.
    Aborted,
}

/// Why an executable decoding step stopped early.
#[derive(Debug)]
pub enum Stop {
    Error(ProtocolError),
    Abort,
}

/// How much input is left from `pos` on.
pub open spec fn remaining(s: Seq<u8>, pos: int) -> nat {
    if 0 <= pos < s.len() {
        (s.len() - pos) as nat
    } else {
        0
    }
}

/// Big-endian unsigned integers of 2, 4 and 8 bytes starting at `p`.
pub open spec fn be16(s: Seq<u8>, p: int) -> int {
    s[p] * 0x100 + s[p + 1]
}

pub open spec fn be32(s: Seq<u8>, p: int) -> int {
    s[p] * 0x100_0000 + s[p + 1] * 0x1_0000 + s[p + 2] * 0x100 + s[p + 3]
}

pub open spec fn be64(s: Seq<u8>, p: int) -> int {
    be32(s, p) * 0x1_0000_0000 + be32(s, p + 4)
}

/// The two's-complement reading of an unsigned `bits`-wide quantity.
pub open spec fn twos(v: int, half: int) -> int {
    if v >= half {
        v - 2 * half
    } else {
        v
    }
}

/// A string of `len` bytes starting at `p`.
pub open spec fn spec_parse_str(s: Seq<u8>, p: int, len: int) -> Decoded<ValueView> {
    if p + len > s.len() {
        Decoded::Failed(ProtocolError::InvalidLength)
    } else {
        let bytes = s.subrange(p, p + len);
        if valid_utf8(bytes) {
            Decoded::Done(ValueView::String(decode_utf8(bytes)), p + len)
        } else {
            Decoded::Failed(ProtocolError::InvalidUtf8)
        }
    }
}

/// A fixed-width number of `width` bytes at `p`, read with `read`.
pub open spec fn spec_fixed(s: Seq<u8>, p: int, width: int, v: ValueView) -> Decoded<ValueView> {
    if p + width > s.len() {
        Decoded::Failed(ProtocolError::InvalidLength)
    } else {
        Decoded::Done(v, p + width)
    }
}

pub open spec fn wrap_array(d: Decoded<Seq<ValueView>>) -> Decoded<ValueView> {
    match d {
        Decoded::Done(items, e) => Decoded::Done(ValueView::Array(items), e),
        Decoded::Failed(err) => Decoded::Failed(err),
        Decoded::Aborted => Decoded::Aborted,
    }
}

pub open spec fn wrap_dict(d: Decoded<Seq<(Seq<char>, ValueView)>>) -> Decoded<ValueView> {
    match d {
        Decoded::Done(entries, e) => Decoded::Done(ValueView::Dict(entries), e),
        Decoded::Failed(err) => Decoded::Failed(err),
        Decoded::Aborted => Decoded::Aborted,
    }
}

/// Decoding one MessagePack value that starts at `pos`.
pub open spec fn spec_parse_value(s: Seq<u8>, pos: int) -> Decoded<ValueView>
    decreases remaining(s, pos), 0nat,
{
    if pos < 0 || pos >= s.len() {
        Decoded::Failed(ProtocolError::InvalidLength)
    } else {
        let b = s[pos];
        let p = pos + 1;
        if b == NIL {
            Decoded::Done(ValueView::Nil, p)
        } else if b == TRUE {
            Decoded::Done(ValueView::Boolean(true), p)
        } else if b == FALSE {
            Decoded::Done(ValueView::Boolean(false), p)
        } else if b <= 0x7f {
            Decoded::Done(ValueView::Integer(b as i64), p)
        } else if b >= 0xe0 {
            Decoded::Done(ValueView::Integer((b - 0x100) as i64), p)
        } else if 0xa0 <= b <= 0xbf {
            spec_parse_str(s, p, b - 0xa0)
        } else if b == STR8 {
            if p >= s.len() {
                Decoded::Aborted
            } else {
                spec_parse_str(s, p + 1, s[p] as int)
            }
        } else if b == STR16 {
            if p + 2 > s.len() {
                Decoded::Failed(ProtocolError::InvalidLength)
            } else {
                spec_parse_str(s, p + 2, be16(s, p))
            }
        } else if b == STR32 {
            if p + 4 > s.len() {
                Decoded::Failed(ProtocolError::InvalidLength)
            } else {
                spec_parse_str(s, p + 4, be32(s, p))
            }
        } else if 0x90 <= b <= 0x9f {
            wrap_array(spec_parse_array(s, p, (b - 0x90) as nat, Seq::empty()))
        } else if b == ARRAY16 {
            if p + 2 > s.len() {
                Decoded::Failed(ProtocolError::InvalidLength)
            } else {
                wrap_array(spec_parse_array(s, p + 2, be16(s, p) as nat, Seq::empty()))
            }
        } else if b == ARRAY32 {
            if p + 4 > s.len() {
                Decoded::Failed(ProtocolError::InvalidLength)
            } else {
                wrap_array(spec_parse_array(s, p + 4, be32(s, p) as nat, Seq::empty()))
            }
        } else if 0x80 <= b <= 0x8f {
            wrap_dict(spec_parse_dict(s, p, (b - 0x80) as nat, Seq::empty()))
        } else if b == MAP16 {
            if p + 2 > s.len() {
                Decoded::Failed(ProtocolError::InvalidLength)
            } else {
                wrap_dict(spec_parse_dict(s, p + 2, be16(s, p) as nat, Seq::empty()))
            }
        } else if b == MAP32 {
            if p + 4 > s.len() {
                Decoded::Failed(ProtocolError::InvalidLength)
            } else {
                wrap_dict(spec_parse_dict(s, p + 4, be32(s, p) as nat, Seq::empty()))
            }
        } else if b == INT8 {
            spec_fixed(s, p, 1, ValueView::Integer(twos(s[p] as int, 0x80) as i64))
        } else if b == INT16 {
            spec_fixed(s, p, 2, ValueView::Integer(twos(be16(s, p), 0x8000) as i64))
        } else if b == INT32 {
            spec_fixed(s, p, 4, ValueView::Integer(twos(be32(s, p), 0x8000_0000) as i64))
        } else if b == INT64 {
            spec_fixed(
                s,
                p,
                8,
                ValueView::Integer(twos(be64(s, p), 0x8000_0000_0000_0000) as i64),
            )
        } else if b == UINT8 {
            spec_fixed(s, p, 1, ValueView::UInteger(s[p] as u64))
        } else if b == UINT16 {
            spec_fixed(s, p, 2, ValueView::UInteger(be16(s, p) as u64))
        } else if b == UINT32 {
            spec_fixed(s, p, 4, ValueView::UInteger(be32(s, p) as u64))
        } else if b == UINT64 {
            spec_fixed(s, p, 8, ValueView::UInteger(be64(s, p) as u64))
        } else if b == FLOAT32 {
            spec_fixed(s, p, 4, ValueView::Float(widen_f32_bits(be32(s, p) as u32)))
        } else if b == FLOAT64 {
            spec_fixed(s, p, 8, ValueView::Float(be64(s, p) as u64))
        } else {
            Decoded::Failed(ProtocolError::UnexpectedByte(b))
        }
    }
}

/// Decoding `n` more array items from `q` on, after the items `acc`.
pub open spec fn spec_parse_array(s: Seq<u8>, q: int, n: nat, acc: Seq<ValueView>) -> Decoded<
    Seq<ValueView>,
>
    decreases remaining(s, q), 1nat, n,
{
    if n == 0 {
        Decoded::Done(acc, q)
    } else if q < 0 || q >= s.len() {
        Decoded::Failed(ProtocolError::InvalidLength)
    } else {
        match spec_parse_value(s, q) {
            Decoded::Done(v, p2) => {
                if p2 <= q {
                    Decoded::Aborted
                } else {
                    spec_parse_array(s, p2, (n - 1) as nat, acc.push(v))
                }
            },
            Decoded::Failed(e) => Decoded::Failed(e),
            Decoded::Aborted => Decoded::Aborted,
        }
    }
}

/// Decoding `n` more map entries from `q` on, into the entries `acc`.
pub open spec fn spec_parse_dict(
    s: Seq<u8>,
    q: int,
    n: nat,
    acc: Seq<(Seq<char>, ValueView)>,
) -> Decoded<Seq<(Seq<char>, ValueView)>>
    decreases remaining(s, q), 1nat, n,
{
    if n == 0 {
        Decoded::Done(acc, q)
    } else if q < 0 || q >= s.len() {
        Decoded::Failed(ProtocolError::InvalidLength)
    } else {
        match spec_parse_value(s, q) {
            Decoded::Done(k, q1) => {
                if q1 <= q {
                    Decoded::Aborted
                } else {
                    match k {
                        ValueView::String(key) => match spec_parse_value(s, q1) {
                            Decoded::Done(v, p2) => {
                                if p2 <= q1 {
                                    Decoded::Aborted
                                } else {
                                    spec_parse_dict(
                                        s,
                                        p2,
                                        (n - 1) as nat,
                                        dict_insert(acc, key, v),
                                    )
                                }
                            },
                            Decoded::Failed(e) => Decoded::Failed(e),
                            Decoded::Aborted => Decoded::Aborted,
                        },
                        _ => Decoded::Failed(ProtocolError::InvalidMapKey),
                    }
                }
            },
            Decoded::Failed(e) => Decoded::Failed(e),
            Decoded::Aborted => Decoded::Aborted,
        }
    }
}

/// Decoding a whole message: the first value of a non-empty input (bytes
/// after it are ignored).
pub open spec fn spec_deserialize(s: Seq<u8>) -> Decoded<ValueView> {
    if s.len() == 0 {
        Decoded::Failed(ProtocolError::InvalidLength)
    } else {
        spec_parse_value(s, 0)
    }
}

/// An executable result agrees with a decoding outcome, `end` being where
/// the executable decoder stopped.
pub open spec fn agrees<T: View>(d: Decoded<T::V>, r: Result<T, Stop>, end: int) -> bool {
    match d {
        Decoded::Done(v, e) => r matches Ok(x) && x@ == v && end == e,
        Decoded::Failed(err) => r matches Err(Stop::Error(e2)) && e2 == err,
        Decoded::Aborted => r matches Err(Stop::Abort),
    }
}

pub open spec fn agrees_value(d: Decoded<ValueView>, r: Result<Value, Stop>, end: int) -> bool {
    match d {
        Decoded::Done(v, e) => r matches Ok(x) && x@ == v && end == e,
        Decoded::Failed(err) => r matches Err(Stop::Error(e2)) && e2 == err,
        Decoded::Aborted => r matches Err(Stop::Abort),
    }
}

/// Inserts an entry into a map, replacing the value of an existing entry
/// with the same key.
pub fn dict_insert_entry(entries: &mut Vec<(String, Value)>, key: String, value: Value)
    ensures
        entries_view(final(entries)@) == dict_insert(entries_view(old(entries)@), key@, value@),
{
    let ghost old_view = entries_view(entries@);
    proof {
        lemma_entries_view(entries@);
    }
    let mut i = entries.len();
    assert(old_view.subrange(0, i as int) =~= old_view);
    while i > 0
        invariant
            i <= entries@.len(),
            entries@ == old(entries)@,
            old_view == entries_view(entries@),
            old_view.len() == entries@.len(),
            forall|j: int|
                0 <= j < entries@.len() ==> #[trigger] old_view[j] == (
                    entries@[j].0@,
                    entries@[j].1@,
                ),
            dict_index_of(old_view, key@) == dict_index_of(old_view.subrange(0, i as int), key@),
        decreases i,
    {
        proof {
            assert(old_view.subrange(0, i as int).drop_last() =~= old_view.subrange(0, i - 1));
        }
        if entries[i - 1].0 == key {
            proof {
                assert(old_view.subrange(0, i as int).last().0 == key@);
            }
            let ghost kv = key@;
            let ghost vv = value@;
            entries.set(i - 1, (key, value));
            proof {
                lemma_entries_view_ext(entries@, old_view.update(i - 1, (kv, vv)));
            }
            return;
        }
        i = i - 1;
    }
    proof {
        assert(old_view.subrange(0, 0) =~= Seq::<(Seq<char>, ValueView)>::empty());
    }
    let ghost kv = key@;
    let ghost vv = value@;
    entries.push((key, value));
    proof {
        lemma_entries_view_ext(entries@, old_view.push((kv, vv)));
    }
}

impl MsgPack {
    /// Reads a big-endian `u16` at `p`.
    fn read_be16(input: &[u8], p: usize) -> (v: u16)
        requires
            p + 2 <= input.len(),
        ensures
            v == be16(input@, p as int),
    {
        (input[p] as u16) * 0x100 + (input[p + 1] as u16)
    }

    /// Reads a big-endian `u32` at `p`.
    fn read_be32(input: &[u8], p: usize) -> (v: u32)
        requires
            p + 4 <= input.len(),
        ensures
            v == be32(input@, p as int),
    {
        (input[p] as u32) * 0x100_0000 + (input[p + 1] as u32) * 0x1_0000 + (input[p + 2] as u32)
            * 0x100 + (input[p + 3] as u32)
    }

    /// Reads a big-endian `u64` at `p`.
    fn read_be64(input: &[u8], p: usize) -> (v: u64)
        requires
            p + 8 <= input.len(),
        ensures
            v == be64(input@, p as int),
    {
        let hi = Self::read_be32(input, p) as u64;
        let lo = Self::read_be32(input, p + 4) as u64;
        hi * 0x1_0000_0000 + lo
    }

    /// Reads a big-endian `u16` at the cursor and moves past it.
    fn parse_u16(input: &[u8], pos: &mut usize) -> (r: Result<u16, ProtocolError>)
        requires
            *old(pos) <= input@.len(),
        ensures
            *old(pos) + 2 <= input@.len() ==> (r matches Ok(v) && v == be16(input@, *old(pos) as int)
                && *final(pos) == *old(pos) + 2),
            *old(pos) + 2 > input@.len() ==> r == Err::<u16, ProtocolError>(
                ProtocolError::InvalidLength,
            ) && *final(pos) == *old(pos),
    {
        if input.len() - *pos < 2 {
            return Err(ProtocolError::InvalidLength);
        }
        let value = Self::read_be16(input, *pos);
        *pos = *pos + 2;
        Ok(value)
    }

    /// Reads a big-endian `u32` at the cursor and moves past it.
    fn parse_u32(input: &[u8], pos: &mut usize) -> (r: Result<u32, ProtocolError>)
        requires
            *old(pos) <= input@.len(),
        ensures
            *old(pos) + 4 <= input@.len() ==> (r matches Ok(v) && v == be32(input@, *old(pos) as int)
                && *final(pos) == *old(pos) + 4),
            *old(pos) + 4 > input@.len() ==> r == Err::<u32, ProtocolError>(
                ProtocolError::InvalidLength,
            ) && *final(pos) == *old(pos),
    {
        if input.len() - *pos < 4 {
            return Err(ProtocolError::InvalidLength);
        }
        let value = Self::read_be32(input, *pos);
        *pos = *pos + 4;
        Ok(value)
    }

    /// A value read at the cursor, `width` bytes wide.
    fn fixed(input: &[u8], pos: &mut usize, width: usize, v: Value) -> (r: Result<Value, Stop>)
        requires
            *old(pos) + width <= input.len(),
        ensures
            agrees_value(spec_fixed(input@, *old(pos) as int, width as int, v@), r, *final(pos) as int),
            *final(pos) <= input@.len(),
    {
        *pos = *pos + width;
        Ok(v)
    }

    fn parse_i8(input: &[u8], pos: &mut usize) -> (r: Result<Value, Stop>)
        requires
            *old(pos) <= input@.len(),
        ensures
            agrees_value(
                spec_fixed(
                    input@,
                    *old(pos) as int,
                    1,
                    ValueView::Integer(twos(input@[*old(pos) as int] as int, 0x80) as i64),
                ),
                r,
                *final(pos) as int,
            ),
            *final(pos) <= input@.len(),
    {
        if input.len() - *pos < 1 {
            return Err(Stop::Error(ProtocolError::InvalidLength));
        }
        let b = input[*pos] as i64;
        let v = if b >= 0x80 { b - 0x100 } else { b };
        Self::fixed(input, pos, 1, Value::Integer(v))
    }

    fn parse_i16(input: &[u8], pos: &mut usize) -> (r: Result<Value, Stop>)
        requires
            *old(pos) <= input@.len(),
        ensures
            agrees_value(
                spec_fixed(
                    input@,
                    *old(pos) as int,
                    2,
                    ValueView::Integer(twos(be16(input@, *old(pos) as int), 0x8000) as i64),
                ),
                r,
                *final(pos) as int,
            ),
            *final(pos) <= input@.len(),
    {
        if input.len() - *pos < 2 {
            return Err(Stop::Error(ProtocolError::InvalidLength));
        }
        let b = Self::read_be16(input, *pos) as i64;
        let v = if b >= 0x8000 { b - 0x1_0000 } else { b };
        Self::fixed(input, pos, 2, Value::Integer(v))
    }

    fn parse_i32(input: &[u8], pos: &mut usize) -> (r: Result<Value, Stop>)
        requires
            *old(pos) <= input@.len(),
        ensures
            agrees_value(
                spec_fixed(
                    input@,
                    *old(pos) as int,
                    4,
                    ValueView::Integer(twos(be32(input@, *old(pos) as int), 0x8000_0000) as i64),
                ),
                r,
                *final(pos) as int,
            ),
            *final(pos) <= input@.len(),
    {
        if input.len() - *pos < 4 {
            return Err(Stop::Error(ProtocolError::InvalidLength));
        }
        let b = Self::read_be32(input, *pos) as i64;
        let v = if b >= 0x8000_0000 { b - 0x1_0000_0000 } else { b };
        Self::fixed(input, pos, 4, Value::Integer(v))
    }

    fn parse_i64(input: &[u8], pos: &mut usize) -> (r: Result<Value, Stop>)
        requires
            *old(pos) <= input@.len(),
        ensures
            agrees_value(
                spec_fixed(
                    input@,
                    *old(pos) as int,
                    8,
                    ValueView::Integer(
                        twos(be64(input@, *old(pos) as int), 0x8000_0000_0000_0000) as i64,
                    ),
                ),
                r,
                *final(pos) as int,
            ),
            *final(pos) <= input@.len(),
    {
        if input.len() - *pos < 8 {
            return Err(Stop::Error(ProtocolError::InvalidLength));
        }
        let b = Self::read_be64(input, *pos);
        let v: i64 = if b >= 0x8000_0000_0000_0000 {
            (b - 0x8000_0000_0000_0000) as i64 - 0x4000_0000_0000_0000 - 0x4000_0000_0000_0000
        } else {
            b as i64
        };
        Self::fixed(input, pos, 8, Value::Integer(v))
    }

    fn parse_f32(input: &[u8], pos: &mut usize) -> (r: Result<Value, Stop>)
        requires
            *old(pos) <= input@.len(),
        ensures
            agrees_value(
                spec_fixed(
                    input@,
                    *old(pos) as int,
                    4,
                    ValueView::Float(widen_f32_bits(be32(input@, *old(pos) as int) as u32)),
                ),
                r,
                *final(pos) as int,
            ),
            *final(pos) <= input@.len(),
    {
        if input.len() - *pos < 4 {
            return Err(Stop::Error(ProtocolError::InvalidLength));
        }
        let b = Self::read_be32(input, *pos);
        Self::fixed(input, pos, 4, Value::Float(widen_f32(b)))
    }

    fn parse_f64(input: &[u8], pos: &mut usize) -> (r: Result<Value, Stop>)
        requires
            *old(pos) <= input@.len(),
        ensures
            agrees_value(
                spec_fixed(
                    input@,
                    *old(pos) as int,
                    8,
                    ValueView::Float(be64(input@, *old(pos) as int) as u64),
                ),
                r,
                *final(pos) as int,
            ),
            *final(pos) <= input@.len(),
    {
        if input.len() - *pos < 8 {
            return Err(Stop::Error(ProtocolError::InvalidLength));
        }
        let b = Self::read_be64(input, *pos);
        Self::fixed(input, pos, 8, Value::Float(b))
    }

    fn parse_u8(input: &[u8], pos: &mut usize) -> (r: Result<Value, Stop>)
        requires
            *old(pos) <= input@.len(),
        ensures
            agrees_value(
                spec_fixed(
                    input@,
                    *old(pos) as int,
                    1,
                    ValueView::UInteger(input@[*old(pos) as int] as u64),
                ),
                r,
                *final(pos) as int,
            ),
            *final(pos) <= input@.len(),
    {
        if *pos >= input.len() {
            return Err(Stop::Error(ProtocolError::InvalidLength));
        }
        let b = input[*pos] as u64;
        Self::fixed(input, pos, 1, Value::UInteger(b))
    }

    fn parse_u16_value(input: &[u8], pos: &mut usize) -> (r: Result<Value, Stop>)
        requires
            *old(pos) <= input@.len(),
        ensures
            agrees_value(
                spec_fixed(
                    input@,
                    *old(pos) as int,
                    2,
                    ValueView::UInteger(be16(input@, *old(pos) as int) as u64),
                ),
                r,
                *final(pos) as int,
            ),
            *final(pos) <= input@.len(),
    {
        match Self::parse_u16(input, pos) {
            Ok(v) => Ok(Value::UInteger(v as u64)),
            Err(e) => Err(Stop::Error(e)),
        }
    }

    fn parse_u32_value(input: &[u8], pos: &mut usize) -> (r: Result<Value, Stop>)
        requires
            *old(pos) <= input@.len(),
        ensures
            agrees_value(
                spec_fixed(
                    input@,
                    *old(pos) as int,
                    4,
                    ValueView::UInteger(be32(input@, *old(pos) as int) as u64),
                ),
                r,
                *final(pos) as int,
            ),
            *final(pos) <= input@.len(),
    {
        match Self::parse_u32(input, pos) {
            Ok(v) => Ok(Value::UInteger(v as u64)),
            Err(e) => Err(Stop::Error(e)),
        }
    }

    fn parse_u64(input: &[u8], pos: &mut usize) -> (r: Result<Value, Stop>)
        requires
            *old(pos) <= input@.len(),
        ensures
            agrees_value(
                spec_fixed(
                    input@,
                    *old(pos) as int,
                    8,
                    ValueView::UInteger(be64(input@, *old(pos) as int) as u64),
                ),
                r,
                *final(pos) as int,
            ),
            *final(pos) <= input@.len(),
    {
        if input.len() - *pos < 8 {
            return Err(Stop::Error(ProtocolError::InvalidLength));
        }
        let b = Self::read_be64(input, *pos);
        Self::fixed(input, pos, 8, Value::UInteger(b))
    }

    /// Reads a string of `len` bytes at the cursor.
    fn parse_str(input: &[u8], pos: &mut usize, len: usize) -> (r: Result<Value, Stop>)
        requires
            *old(pos) <= input@.len(),
        ensures
            agrees_value(spec_parse_str(input@, *old(pos) as int, len as int), r, *final(pos) as int),
            *final(pos) <= input@.len(),
    {
        if len > input.len() - *pos {
            return Err(Stop::Error(ProtocolError::InvalidLength));
        }
        let bytes = &input[*pos..*pos + len];
        assert(bytes@ == input@.subrange(*pos as int, *pos + len));
        *pos = *pos + len;
        match str_from_utf8(bytes) {
            Some(s) => {
                proof {
                    lemma_decode_of_bytes(s);
                }
                Ok(Value::String(s.to_owned()))
            },
            None => Err(Stop::Error(ProtocolError::InvalidUtf8)),
        }
    }
}

impl MsgPack {
    /// Decodes a message: the first value of a non-empty input.
    ///
    /// The input must not end right after a one-byte-length string header;
    /// [`MsgPack::deserialize_checked`] tests that.
    pub fn deserialize(input: &[u8]) -> (r: crate::Result<Value>)
        requires
            !(spec_deserialize(input@) is Aborted),
        ensures
            match spec_deserialize(input@) {
                Decoded::Done(v, _) => r matches Ok(x) && x@ == v,
                Decoded::Failed(e) => r matches Err(CordError::Protocol(e2)) && e2 == e,
                Decoded::Aborted => false,
            },
    {
        match Self::deserialize_checked(input) {
            Some(r) => r,
            None => {
                assert(false);
                Err(CordError::Protocol(ProtocolError::InvalidLength))
            },
        }
    }

    /// Decodes a message, or gives `None` where decoding would read past the
    /// end of the input.
    pub fn deserialize_checked(input: &[u8]) -> (r: Option<crate::Result<Value>>)
        ensures
            match spec_deserialize(input@) {
                Decoded::Done(v, _) => r matches Some(Ok(x)) && x@ == v,
                Decoded::Failed(e) => r matches Some(Err(CordError::Protocol(e2))) && e2 == e,
                Decoded::Aborted => r is None,
            },
    {
        if input.len() == 0 {
            return Some(Err(CordError::Protocol(ProtocolError::InvalidLength)));
        }
        let mut pos: usize = 0;
        match Self::parse_value(input, &mut pos) {
            Ok(v) => Some(Ok(v)),
            Err(Stop::Error(e)) => Some(Err(CordError::Protocol(e))),
            Err(Stop::Abort) => None,
        }
    }

    /// Decodes the value at the cursor and moves past it.
    pub fn parse_value(input: &[u8], pos: &mut usize) -> (r: Result<Value, Stop>)
        requires
            *old(pos) <= input@.len(),
        ensures
            agrees_value(spec_parse_value(input@, *old(pos) as int), r, *final(pos) as int),
            *final(pos) <= input@.len(),
            r is Ok ==> *final(pos) > *old(pos),
        decreases input@.len() - *old(pos), 0nat,
    {
        if *pos >= input.len() {
            return Err(Stop::Error(ProtocolError::InvalidLength));
        }
        let byte = input[*pos];
        *pos = *pos + 1;
        if byte == NIL {
            Ok(Value::Nil)
        } else if byte == TRUE {
            Ok(Value::Boolean(true))
        } else if byte == FALSE {
            Ok(Value::Boolean(false))
        } else if byte <= 0x7f {
            Ok(Value::Integer(byte as i64))
        } else if byte >= 0xe0 {
            Ok(Value::Integer(byte as i64 - 0x100))
        } else if 0xa0 <= byte && byte <= 0xbf {
            Self::parse_str(input, pos, (byte - 0xa0) as usize)
        } else if byte == STR8 {
            if *pos >= input.len() {
                return Err(Stop::Abort);
            }
            let len = input[*pos] as usize;
            *pos = *pos + 1;
            Self::parse_str(input, pos, len)
        } else if byte == STR16 {
            match Self::parse_u16(input, pos) {
                Ok(len) => Self::parse_str(input, pos, len as usize),
                Err(e) => Err(Stop::Error(e)),
            }
        } else if byte == STR32 {
            match Self::parse_u32(input, pos) {
                Ok(len) => Self::parse_str(input, pos, len as usize),
                Err(e) => Err(Stop::Error(e)),
            }
        } else if 0x90 <= byte && byte <= 0x9f {
            Self::parse_array(input, pos, (byte - 0x90) as usize)
        } else if byte == ARRAY16 {
            match Self::parse_u16(input, pos) {
                Ok(len) => Self::parse_array(input, pos, len as usize),
                Err(e) => Err(Stop::Error(e)),
            }
        } else if byte == ARRAY32 {
            match Self::parse_u32(input, pos) {
                Ok(len) => Self::parse_array(input, pos, len as usize),
                Err(e) => Err(Stop::Error(e)),
            }
        } else if 0x80 <= byte && byte <= 0x8f {
            Self::parse_map(input, pos, (byte - 0x80) as usize)
        } else if byte == MAP16 {
            match Self::parse_u16(input, pos) {
                Ok(len) => Self::parse_map(input, pos, len as usize),
                Err(e) => Err(Stop::Error(e)),
            }
        } else if byte == MAP32 {
            match Self::parse_u32(input, pos) {
                Ok(len) => Self::parse_map(input, pos, len as usize),
                Err(e) => Err(Stop::Error(e)),
            }
        } else if byte == INT8 {
            Self::parse_i8(input, pos)
        } else if byte == INT16 {
            Self::parse_i16(input, pos)
        } else if byte == INT32 {
            Self::parse_i32(input, pos)
        } else if byte == INT64 {
            Self::parse_i64(input, pos)
        } else if byte == UINT8 {
            Self::parse_u8(input, pos)
        } else if byte == UINT16 {
            Self::parse_u16_value(input, pos)
        } else if byte == UINT32 {
            Self::parse_u32_value(input, pos)
        } else if byte == UINT64 {
            Self::parse_u64(input, pos)
        } else if byte == FLOAT32 {
            Self::parse_f32(input, pos)
        } else if byte == FLOAT64 {
            Self::parse_f64(input, pos)
        } else {
            Err(Stop::Error(ProtocolError::UnexpectedByte(byte)))
        }
    }

    /// Decodes `len` values from the cursor on, as an array.
    fn parse_array(input: &[u8], pos: &mut usize, len: usize) -> (r: Result<Value, Stop>)
        requires
            *old(pos) <= input@.len(),
        ensures
            agrees_value(
                wrap_array(spec_parse_array(input@, *old(pos) as int, len as nat, Seq::empty())),
                r,
                *final(pos) as int,
            ),
            *final(pos) <= input@.len(),
            r is Ok ==> *final(pos) >= *old(pos),
        decreases input@.len() - *old(pos), 1nat,
    {
        let ghost start = *pos as int;
        let ghost s = input@;
        let mut values: Vec<Value> = Vec::new();
        let mut i: usize = 0;
        proof {
            lemma_items_view_ext(values@, Seq::empty());
        }
        while i < len
            invariant
                start == *old(pos),
                s == input@,
                start <= *pos <= input@.len(),
                i <= len,
                spec_parse_array(s, start, len as nat, Seq::empty()) == spec_parse_array(
                    s,
                    *pos as int,
                    (len - i) as nat,
                    items_view(values@),
                ),
            decreases len - i,
        {
            if *pos >= input.len() {
                return Err(Stop::Error(ProtocolError::InvalidLength));
            }
            let ghost q = *pos as int;
            match Self::parse_value(input, pos) {
                Ok(v) => {
                    let ghost old_values = values@;
                    let ghost vv = v@;
                    values.push(v);
                    proof {
                        lemma_items_view(old_values);
                        lemma_items_view_ext(values@, items_view(old_values).push(vv));
                    }
                },
                Err(e) => {
                    return Err(e);
                },
            }
            i = i + 1;
        }
        Ok(Value::Array(values))
    }

    /// Decodes `len` key-value pairs from the cursor on, as a map.
    fn parse_map(input: &[u8], pos: &mut usize, len: usize) -> (r: Result<Value, Stop>)
        requires
            *old(pos) <= input@.len(),
        ensures
            agrees_value(
                wrap_dict(spec_parse_dict(input@, *old(pos) as int, len as nat, Seq::empty())),
                r,
                *final(pos) as int,
            ),
            *final(pos) <= input@.len(),
            r is Ok ==> *final(pos) >= *old(pos),
        decreases input@.len() - *old(pos), 1nat,
    {
        let ghost start = *pos as int;
        let ghost s = input@;
        let mut entries: Vec<(String, Value)> = Vec::new();
        let mut i: usize = 0;
        proof {
            lemma_entries_view_ext(entries@, Seq::empty());
        }
        while i < len
            invariant
                start == *old(pos),
                s == input@,
                start <= *pos <= input@.len(),
                i <= len,
                spec_parse_dict(s, start, len as nat, Seq::empty()) == spec_parse_dict(
                    s,
                    *pos as int,
                    (len - i) as nat,
                    entries_view(entries@),
                ),
            decreases len - i,
        {
            if *pos >= input.len() {
                return Err(Stop::Error(ProtocolError::InvalidLength));
            }
            let key = match Self::parse_value(input, pos) {
                Ok(Value::String(k)) => k,
                Ok(_) => {
                    return Err(Stop::Error(ProtocolError::InvalidMapKey));
                },
                Err(e) => {
                    return Err(e);
                },
            };
            match Self::parse_value(input, pos) {
                Ok(v) => {
                    dict_insert_entry(&mut entries, key, v);
                },
                Err(e) => {
                    return Err(e);
                },
            }
            i = i + 1;
        }
        Ok(Value::Dict(entries))
    }
}

} // verus!
