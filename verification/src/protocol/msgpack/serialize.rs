use vstd::prelude::*;
use vstd::string::StringSliceAdditionalSpecFns;
use vstd::utf8::*;

use super::value::{ValueRef, RefView, ref_view, refs_view, fields_view, lemma_refs_view, lemma_fields_view};
use super::{
    ARRAY16, ARRAY32, FALSE, FIXARRAY_VALUE, FIXMAP_VALUE, FIXSTR_VALUE, FLOAT64, INT64, MAP16, MAP32,
    NIL, STR16, STR32, TRUE, UINT16, UINT32, UINT64, UINT8, MsgPack,
};
use crate::error::CordError;
use crate::protocol::error::ProtocolError;

verus! {

/// The big-endian bytes of numbers of 2, 4 and 8 bytes.
pub open spec fn be16_bytes(n: int) -> Seq<u8> {
    seq![(n / 0x100 % 0x100) as u8, (n % 0x100) as u8]
}

pub open spec fn be32_bytes(n: int) -> Seq<u8> {
    be16_bytes(n / 0x1_0000) + be16_bytes(n % 0x1_0000)
}

pub open spec fn be64_bytes(n: int) -> Seq<u8> {
    be32_bytes(n / 0x1_0000_0000) + be32_bytes(n % 0x1_0000_0000)
}

/// The header of a string of `len` bytes, if such a length can be written.
pub open spec fn str_header(len: nat) -> Option<Seq<u8>> {
    if len <= 31 {
        Some(seq![(FIXSTR_VALUE + len) as u8])
    } else if len <= 0xffff {
        Some(seq![STR16] + be16_bytes(len as int))
    } else if len <= 0xffff_ffff {
        Some(seq![STR32] + be32_bytes(len as int))
    } else {
        None
    }
}

/// The header of an array of `len` items.
pub open spec fn array_header(len: nat) -> Option<Seq<u8>> {
    if len <= 15 {
        Some(seq![(FIXARRAY_VALUE + len) as u8])
    } else if len <= 0xffff {
        Some(seq![ARRAY16] + be16_bytes(len as int))
    } else if len <= 0xffff_ffff {
        Some(seq![ARRAY32] + be32_bytes(len as int))
    } else {
        None
    }
}

/// The header of a map of `len` entries.
pub open spec fn map_header(len: nat) -> Option<Seq<u8>> {
    if len <= 15 {
        Some(seq![(FIXMAP_VALUE + len) as u8])
    } else if len <= 0xffff {
        Some(seq![MAP16] + be16_bytes(len as int))
    } else if len <= 0xffff_ffff {
        Some(seq![MAP32] + be32_bytes(len as int))
    } else {
        None
    }
}

/// Both parts written one after the other, if both could be written.
pub open spec fn then(a: Option<Seq<u8>>, b: Option<Seq<u8>>) -> Option<Seq<u8>> {
    match (a, b) {
        (Some(x), Some(y)) => Some(x + y),
        _ => None,
    }
}

/// The encoding of a string: its header, then its UTF-8 bytes.
pub open spec fn spec_write_str(s: Seq<char>) -> Option<Seq<u8>> {
    then(str_header(encode_utf8(s).len()), Some(encode_utf8(s)))
}

/// The encoding of a value; `None` where some length is too large to be
/// written.
pub open spec fn spec_write_value(v: RefView) -> Option<Seq<u8>>
    decreases v,
{
    match v {
        RefView::Nil => Some(seq![NIL]),
        RefView::String(s) => spec_write_str(s),
        RefView::Float(bits) => Some(seq![FLOAT64] + be64_bytes(bits as int)),
        RefView::Integer(n) => if -32 <= n < 128 {
            Some(seq![(if n < 0 { n + 0x100 } else { n as int }) as u8])
        } else {
            Some(seq![INT64] + be64_bytes(if n < 0 { n + 0x1_0000_0000_0000_0000 } else { n as int }))
        },
        RefView::UInteger(n) => if n < 0x100 {
            Some(seq![UINT8, n as u8])
        } else if n < 0x1_0000 {
            Some(seq![UINT16] + be16_bytes(n as int))
        } else if n < 0x1_0000_0000 {
            Some(seq![UINT32] + be32_bytes(n as int))
        } else {
            Some(seq![UINT64] + be64_bytes(n as int))
        },
        RefView::Boolean(b) => Some(seq![if b { TRUE } else { FALSE }]),
        RefView::Array(items) => then(array_header(items.len()), spec_write_items(items)),
        RefView::Object(fields) => spec_write_fields(fields),
        RefView::Dict(entries) => then(map_header(entries.len()), spec_write_fields(entries)),
    }
}

/// The encodings of items, one after the other.
pub open spec fn spec_write_items(items: Seq<RefView>) -> Option<Seq<u8>>
    decreases items,
{
    if items.len() == 0 {
        Some(Seq::empty())
    } else {
        then(spec_write_items(items.drop_last()), spec_write_value(items.last()))
    }
}

/// The encodings of key-value pairs, one after the other.
pub open spec fn spec_write_fields(fields: Seq<(Seq<char>, RefView)>) -> Option<Seq<u8>>
    decreases fields,
{
    if fields.len() == 0 {
        Some(Seq::empty())
    } else {
        then(
            spec_write_fields(fields.drop_last()),
            then(spec_write_str(fields.last().0), spec_write_value(fields.last().1)),
        )
    }
}

/// A value that can be written as a MessagePack message: a list of named
/// fields.
pub trait Serialize {
    /// The fields, in order.
    spec fn spec_fields(&self) -> Seq<(Seq<char>, RefView)>;

    /// The fields, in order.
    fn serialize_fields(&self) -> (r: Vec<(String, ValueRef)>)
        ensures
            fields_view(r@) == self.spec_fields(),
    ;
}

/// The bytes written so far.
pub struct SerializeState {
    pub buf: Vec<u8>,
}

impl SerializeState {
    /// An empty buffer.
    pub fn new() -> (r: Self)
        ensures
            r.buf@ == Seq::<u8>::empty(),
    {
        Self { buf: Vec::new() }
    }

    fn write_u8(&mut self, v: u8)
        ensures
            final(self).buf@ == old(self).buf@.push(v),
    {
        self.buf.push(v);
    }

    fn write_u16(&mut self, v: u16)
        ensures
            final(self).buf@ == old(self).buf@ + be16_bytes(v as int),
    {
        self.buf.push((v / 0x100) as u8);
        self.buf.push((v % 0x100) as u8);
        assert(self.buf@ =~= old(self).buf@ + be16_bytes(v as int));
    }

    fn write_u32(&mut self, v: u32)
        ensures
            final(self).buf@ == old(self).buf@ + be32_bytes(v as int),
    {
        self.write_u16((v / 0x1_0000) as u16);
        self.write_u16((v % 0x1_0000) as u16);
        assert(self.buf@ =~= old(self).buf@ + be32_bytes(v as int));
    }

    fn write_u64(&mut self, v: u64)
        ensures
            final(self).buf@ == old(self).buf@ + be64_bytes(v as int),
    {
        self.write_u32((v / 0x1_0000_0000) as u32);
        self.write_u32((v % 0x1_0000_0000) as u32);
        assert(self.buf@ =~= old(self).buf@ + be64_bytes(v as int));
    }

    fn write_i64(&mut self, v: i64)
        ensures
            final(self).buf@ == old(self).buf@ + be64_bytes(
                if v < 0 {
                    v + 0x1_0000_0000_0000_0000
                } else {
                    v as int
                },
            ),
    {
        let u: u64 = if v < 0 {
            (v + 0x4000_0000_0000_0000 + 0x4000_0000_0000_0000) as u64 + 0x8000_0000_0000_0000
        } else {
            v as u64
        };
        self.write_u64(u);
    }

    /// Writes the bit pattern of a double-precision number.
    fn write_f64(&mut self, bits: u64)
        ensures
            final(self).buf@ == old(self).buf@ + be64_bytes(bits as int),
    {
        self.write_u64(bits);
    }

    fn write_bytes(&mut self, bytes: &[u8])
        ensures
            final(self).buf@ == old(self).buf@ + bytes@,
    {
        self.buf.extend_from_slice(bytes);
    }
}

pub proof fn lemma_items_prefix_none(items: Seq<RefView>, i: int)
    requires
        0 <= i <= items.len(),
        spec_write_items(items.subrange(0, i)) is None,
    ensures
        spec_write_items(items) is None,
    decreases items.len() - i,
{
    if i < items.len() {
        assert(items.subrange(0, i + 1).drop_last() =~= items.subrange(0, i));
        lemma_items_prefix_none(items, i + 1);
    } else {
        assert(items.subrange(0, i) =~= items);
    }
}

pub proof fn lemma_fields_prefix_none(fields: Seq<(Seq<char>, RefView)>, i: int)
    requires
        0 <= i <= fields.len(),
        spec_write_fields(fields.subrange(0, i)) is None,
    ensures
        spec_write_fields(fields) is None,
    decreases fields.len() - i,
{
    if i < fields.len() {
        assert(fields.subrange(0, i + 1).drop_last() =~= fields.subrange(0, i));
        lemma_fields_prefix_none(fields, i + 1);
    } else {
        assert(fields.subrange(0, i) =~= fields);
    }
}

/// What writing a value yields, as an executable result: the bytes added to
/// the buffer, or the length error.
pub open spec fn written(spec: Option<Seq<u8>>, r: crate::Result<()>, before: Seq<u8>, after: Seq<u8>) -> bool {
    match spec {
        Some(b) => r is Ok && after == before + b,
        None => r matches Err(CordError::Protocol(ProtocolError::InvalidLength)),
    }
}

impl MsgPack {
    /// Writes a message: a one-entry map header, then each field of `value`.
    pub fn serialize<T: Serialize>(value: &T) -> (r: crate::Result<Vec<u8>>)
        ensures
            match spec_write_fields(value.spec_fields()) {
                Some(b) => r matches Ok(bytes) && bytes@ == seq![0x81u8] + b,
                None => r matches Err(CordError::Protocol(ProtocolError::InvalidLength)),
            },
    {
        let mut state = SerializeState::new();
        state.write_u8(0x81);
        let fields = value.serialize_fields();
        match Self::write_fields(&fields, &mut state) {
            Ok(()) => Ok(state.buf),
            Err(e) => Err(e),
        }
    }

    /// Writes a string: its header, then its bytes.
    fn write_str(s: &str, state: &mut SerializeState) -> (r: crate::Result<()>)
        ensures
            written(spec_write_str(s@), r, old(state).buf@, final(state).buf@),
            spec_write_str(s@) is None ==> final(state).buf@ == old(state).buf@,
    {
        let bytes = s.as_bytes();
        let len = bytes.len();
        if len <= 31 {
            state.write_u8(FIXSTR_VALUE + len as u8);
        } else if len <= 0xffff {
            state.write_u8(STR16);
            state.write_u16(len as u16);
        } else {
            if len > 0xffff_ffff {
                return Err(CordError::Protocol(ProtocolError::InvalidLength));
            }
            state.write_u8(STR32);
            state.write_u32(len as u32);
        }
        state.write_bytes(bytes);
        proof {
            assert(state.buf@ =~= old(state).buf@ + spec_write_str(s@).unwrap());
        }
        Ok(())
    }

    /// Writes a key and its value.
    fn write_kv(key: &str, value: &ValueRef, state: &mut SerializeState) -> (r: crate::Result<()>)
        ensures
            written(
                then(spec_write_str(key@), spec_write_value(value@)),
                r,
                old(state).buf@,
                final(state).buf@,
            ),
    {
        match Self::write_str(key, state) {
            Ok(()) => {},
            Err(e) => {
                return Err(e);
            },
        }
        let ghost mid = state.buf@;
        let r = Self::write_value(value, state);
        proof {
            if r is Ok {
                assert(state.buf@ =~= old(state).buf@ + then(spec_write_str(key@), spec_write_value(value@)).unwrap());
            }
        }
        r
    }

    /// Writes key-value pairs one after the other.
    fn write_fields(fields: &Vec<(String, ValueRef)>, state: &mut SerializeState) -> (r: crate::Result<()>)
        ensures
            written(spec_write_fields(fields_view(fields@)), r, old(state).buf@, final(state).buf@),
    {
        let ghost fv = fields_view(fields@);
        proof {
            lemma_fields_view(fields@);
            assert(fv.subrange(0, 0) =~= Seq::<(Seq<char>, RefView)>::empty());
        }
        let mut i: usize = 0;
        while i < fields.len()
            invariant
                fv == fields_view(fields@),
                fv.len() == fields@.len(),
                forall|j: int| 0 <= j < fields@.len() ==> #[trigger] fv[j] == (fields@[j].0@, fields@[j].1@),
                i <= fields@.len(),
                spec_write_fields(fv.subrange(0, i as int)) is Some,
                state.buf@ == old(state).buf@ + spec_write_fields(fv.subrange(0, i as int)).unwrap(),
            decreases fields@.len() - i,
        {
            assert(fv.subrange(0, i + 1).drop_last() =~= fv.subrange(0, i as int));
            let ghost before = state.buf@;
            match Self::write_kv(fields[i].0.as_str(), &fields[i].1, state) {
                Ok(()) => {
                    assert(state.buf@ =~= old(state).buf@ + spec_write_fields(fv.subrange(0, i + 1)).unwrap());
                },
                Err(e) => {
                    proof {
                        lemma_fields_prefix_none(fv, i + 1);
                    }
                    return Err(e);
                },
            }
            i = i + 1;
        }
        assert(fv.subrange(0, i as int) =~= fv);
        Ok(())
    }

    /// Writes one value.
    pub fn write_value(value: &ValueRef, state: &mut SerializeState) -> (r: crate::Result<()>)
        ensures
            written(spec_write_value(value@), r, old(state).buf@, final(state).buf@),
        decreases value,
    {
        match value {
            ValueRef::Nil => {
                state.write_u8(NIL);
                assert(state.buf@ =~= old(state).buf@ + seq![NIL]);
                Ok(())
            },
            ValueRef::String(s) => Self::write_str(s.as_str(), state),
            ValueRef::Float(bits) => {
                state.write_u8(FLOAT64);
                state.write_f64(*bits);
                assert(state.buf@ =~= old(state).buf@ + spec_write_value(value@).unwrap());
                Ok(())
            },
            ValueRef::Integer(n) => Self::write_integer(*n, state),
            ValueRef::UInteger(n) => Self::write_uinteger(*n, state),
            ValueRef::Boolean(b) => {
                state.write_u8(if *b { TRUE } else { FALSE });
                assert(state.buf@ =~= old(state).buf@ + spec_write_value(value@).unwrap());
                Ok(())
            },
            ValueRef::Array(arr) => {
                proof {
                    lemma_refs_view(arr@);
                }
                Self::write_array(arr, state)
            },
            ValueRef::Object(fields) => Self::write_fields_of(fields, state),
            ValueRef::Dict(fields) => {
                proof {
                    lemma_fields_view(fields@);
                }
                match Self::write_map_header(fields.len(), state) {
                    Ok(()) => {},
                    Err(e) => {
                        return Err(e);
                    },
                }
                let ghost mid = state.buf@;
                let r = Self::write_fields_of(fields, state);
                proof {
                    if r is Ok {
                        assert(state.buf@ =~= old(state).buf@ + spec_write_value(value@).unwrap());
                    }
                }
                r
            },
        }
    }

    /// Writes a signed integer.
    fn write_integer(n: i64, state: &mut SerializeState) -> (r: crate::Result<()>)
        ensures
            written(spec_write_value(RefView::Integer(n)), r, old(state).buf@, final(state).buf@),
    {
        if n >= -32 && n < 128 {
            let b: u8 = if n < 0 {
                (n + 0x100) as u8
            } else {
                n as u8
            };
            state.write_u8(b);
        } else {
            state.write_u8(INT64);
            state.write_i64(n);
        }
        assert(state.buf@ =~= old(state).buf@ + spec_write_value(RefView::Integer(n)).unwrap());
        Ok(())
    }

    /// Writes an unsigned integer.
    fn write_uinteger(n: u64, state: &mut SerializeState) -> (r: crate::Result<()>)
        ensures
            written(spec_write_value(RefView::UInteger(n)), r, old(state).buf@, final(state).buf@),
    {
        if n < 0x100 {
            state.write_u8(UINT8);
            state.write_u8(n as u8);
        } else if n < 0x1_0000 {
            state.write_u8(UINT16);
            state.write_u16(n as u16);
        } else if n < 0x1_0000_0000 {
            state.write_u8(UINT32);
            state.write_u32(n as u32);
        } else {
            state.write_u8(UINT64);
            state.write_u64(n);
        }
        assert(state.buf@ =~= old(state).buf@ + spec_write_value(RefView::UInteger(n)).unwrap());
        Ok(())
    }

    /// Writes the header of a map of `len` entries.
    fn write_map_header(len: usize, state: &mut SerializeState) -> (r: crate::Result<()>)
        ensures
            written(map_header(len as nat), r, old(state).buf@, final(state).buf@),
    {
        if len <= 15 {
            state.write_u8(FIXMAP_VALUE + len as u8);
        } else if len <= 0xffff {
            state.write_u8(MAP16);
            state.write_u16(len as u16);
        } else {
            if len > 0xffff_ffff {
                return Err(CordError::Protocol(ProtocolError::InvalidLength));
            }
            state.write_u8(MAP32);
            state.write_u32(len as u32);
        }
        assert(state.buf@ =~= old(state).buf@ + map_header(len as nat).unwrap());
        Ok(())
    }

    /// Writes an array: its header, then its items.
    fn write_array(arr: &Vec<ValueRef>, state: &mut SerializeState) -> (r: crate::Result<()>)
        ensures
            written(
                then(array_header(arr@.len()), spec_write_items(refs_view(arr@))),
                r,
                old(state).buf@,
                final(state).buf@,
            ),
        decreases arr@,
    {
        let len = arr.len();
        if len <= 15 {
            state.write_u8(FIXARRAY_VALUE + len as u8);
        } else if len <= 0xffff {
            state.write_u8(ARRAY16);
            state.write_u16(len as u16);
        } else {
            if len > 0xffff_ffff {
                return Err(CordError::Protocol(ProtocolError::InvalidLength));
            }
            state.write_u8(ARRAY32);
            state.write_u32(len as u32);
        }
        let ghost header = state.buf@.subrange(old(state).buf@.len() as int, state.buf@.len() as int);
        let ghost iv = refs_view(arr@);
        proof {
            lemma_refs_view(arr@);
            assert(header == array_header(arr@.len()).unwrap());
            assert(iv.subrange(0, 0) =~= Seq::<RefView>::empty());
            assert(state.buf@ =~= old(state).buf@ + header + spec_write_items(iv.subrange(0, 0)).unwrap());
        }
        let mut i: usize = 0;
        while i < len
            invariant
                len == arr@.len(),
                iv == refs_view(arr@),
                iv.len() == arr@.len(),
                forall|j: int| 0 <= j < arr@.len() ==> #[trigger] iv[j] == arr@[j]@,
                i <= len,
                spec_write_items(iv.subrange(0, i as int)) is Some,
                state.buf@ == old(state).buf@ + header + spec_write_items(iv.subrange(0, i as int)).unwrap(),
            decreases len - i,
        {
            assert(iv.subrange(0, i + 1).drop_last() =~= iv.subrange(0, i as int));
            proof {
                assert(decreases_to!(arr@ => arr@[i as int]));
            }
            match Self::write_value(&arr[i], state) {
                Ok(()) => {
                    assert(state.buf@ =~= old(state).buf@ + header + spec_write_items(iv.subrange(0, i + 1)).unwrap());
                },
                Err(e) => {
                    proof {
                        lemma_items_prefix_none(iv, i + 1);
                    }
                    return Err(e);
                },
            }
            i = i + 1;
        }
        assert(iv.subrange(0, i as int) =~= iv);
        assert(state.buf@ =~= old(state).buf@ + (header + spec_write_items(iv).unwrap()));
        Ok(())
    
    }

    /// Writes the key-value pairs of a value being written.
    fn write_fields_of(fields: &Vec<(String, ValueRef)>, state: &mut SerializeState) -> (r: crate::Result<()>)
        ensures
            written(spec_write_fields(fields_view(fields@)), r, old(state).buf@, final(state).buf@),
        decreases fields@,
    {
        let ghost fv = fields_view(fields@);
        proof {
            lemma_fields_view(fields@);
            assert(fv.subrange(0, 0) =~= Seq::<(Seq<char>, RefView)>::empty());
        }
        let mut i: usize = 0;
        while i < fields.len()
            invariant
                fv == fields_view(fields@),
                fv.len() == fields@.len(),
                forall|j: int| 0 <= j < fields@.len() ==> #[trigger] fv[j] == (fields@[j].0@, fields@[j].1@),
                i <= fields@.len(),
                spec_write_fields(fv.subrange(0, i as int)) is Some,
                state.buf@ == old(state).buf@ + spec_write_fields(fv.subrange(0, i as int)).unwrap(),
            decreases fields@.len() - i,
        {
            assert(fv.subrange(0, i + 1).drop_last() =~= fv.subrange(0, i as int));
            match Self::write_str(fields[i].0.as_str(), state) {
                Ok(()) => {},
                Err(e) => {
                    proof {
                        lemma_fields_prefix_none(fv, i + 1);
                    }
                    return Err(e);
                },
            }
            proof {
                assert(decreases_to!(fields@ => fields@[i as int]));
            }
            match Self::write_value(&fields[i].1, state) {
                Ok(()) => {
                    assert(state.buf@ =~= old(state).buf@ + spec_write_fields(fv.subrange(0, i + 1)).unwrap());
                },
                Err(e) => {
                    proof {
                        lemma_fields_prefix_none(fv, i + 1);
                    }
                    return Err(e);
                },
            }
            i = i + 1;
        }
        assert(fv.subrange(0, i as int) =~= fv);
        Ok(())
    }
}

} // verus!
