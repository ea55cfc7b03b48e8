use vstd::prelude::*;
use vstd::utf8::*;

use super::deserialize::{
    be16, be32, be64, spec_deserialize, spec_parse_array, spec_parse_dict, spec_parse_value,
    wrap_array, wrap_dict, Decoded,
};
use super::{ARRAY16, ARRAY32, FLOAT64, INT64, MAP16, MAP32, STR16, STR32, UINT16, UINT32, UINT64};
use super::serialize::{
    array_header, be16_bytes, be32_bytes, be64_bytes, map_header, spec_write_fields,
    spec_write_items, spec_write_str, spec_write_value, str_header, then,
};
use super::value::{dict_index_of, dict_insert, lemma_dict_index_of_bounds, RefView, ValueView};

verus! {

/// A value that reads back as itself: no `Object` inside, and every map has
/// pairwise distinct keys.
pub open spec fn plain(v: RefView) -> bool
    decreases v,
{
    match v {
        RefView::Object(_) => false,
        RefView::Array(items) => plain_items(items),
        RefView::Dict(entries) => plain_fields(entries) && fields_keys_distinct(entries),
        _ => true,
    }
}

pub open spec fn plain_items(items: Seq<RefView>) -> bool
    decreases items,
{
    if items.len() == 0 {
        true
    } else {
        plain(items[0]) && plain_items(items.drop_first())
    }
}

pub open spec fn plain_fields(fields: Seq<(Seq<char>, RefView)>) -> bool
    decreases fields,
{
    if fields.len() == 0 {
        true
    } else {
        plain(fields[0].1) && plain_fields(fields.drop_first())
    }
}

pub open spec fn fields_keys_distinct(fields: Seq<(Seq<char>, RefView)>) -> bool {
    forall|i: int, j: int|
        0 <= i < j < fields.len() ==> #[trigger] fields[i].0 != #[trigger] fields[j].0
}

/// What reading back a written value gives.
pub open spec fn decoded(v: RefView) -> ValueView
    decreases v,
{
    match v {
        RefView::Nil => ValueView::Nil,
        RefView::String(s) => ValueView::String(s),
        RefView::Float(bits) => ValueView::Float(bits),
        RefView::Integer(n) => ValueView::Integer(n),
        RefView::UInteger(n) => ValueView::UInteger(n),
        RefView::Boolean(b) => ValueView::Boolean(b),
        RefView::Array(items) => ValueView::Array(decoded_items(items)),
        RefView::Object(fields) => ValueView::Dict(decoded_fields(fields)),
        RefView::Dict(fields) => ValueView::Dict(decoded_fields(fields)),
    }
}

pub open spec fn decoded_items(items: Seq<RefView>) -> Seq<ValueView>
    decreases items,
{
    if items.len() == 0 {
        Seq::empty()
    } else {
        seq![decoded(items[0])] + decoded_items(items.drop_first())
    }
}

pub open spec fn decoded_fields(fields: Seq<(Seq<char>, RefView)>) -> Seq<(Seq<char>, ValueView)>
    decreases fields,
{
    if fields.len() == 0 {
        Seq::empty()
    } else {
        seq![(fields[0].0, decoded(fields[0].1))] + decoded_fields(fields.drop_first())
    }
}

proof fn lemma_be16(n: int)
    requires
        0 <= n < 0x1_0000,
    ensures
        be16(be16_bytes(n), 0) == n,
{
}

/// The bytes of `s` from `start` on begin with `w`.
pub open spec fn holds_at(s: Seq<u8>, start: int, w: Seq<u8>) -> bool {
    0 <= start && start + w.len() <= s.len() && s.subrange(start, start + w.len()) == w
}

proof fn lemma_holds_at_split(s: Seq<u8>, start: int, a: Seq<u8>, b: Seq<u8>)
    requires
        holds_at(s, start, a + b),
    ensures
        holds_at(s, start, a),
        holds_at(s, start + a.len(), b),
{
    let whole = s.subrange(start, start + a.len() + b.len());
    assert(whole == a + b);
    assert forall|i: int| 0 <= i < a.len() implies s[start + i] == a[i] by {
        assert(whole[i] == s[start + i]);
        assert((a + b)[i] == a[i]);
    }
    assert forall|i: int| 0 <= i < b.len() implies s[start + a.len() + i] == b[i] by {
        assert(whole[a.len() + i] == s[start + a.len() + i]);
        assert((a + b)[a.len() + i] == b[i]);
    }
    assert(s.subrange(start, start + a.len()) =~= a);
    assert(s.subrange(start + a.len(), start + a.len() + b.len()) =~= b);
}

/// Big-endian bytes written at `start` read back as their number.
proof fn lemma_holds_at_be16(s: Seq<u8>, start: int, n: int)
    requires
        0 <= n < 0x1_0000,
        holds_at(s, start, be16_bytes(n)),
    ensures
        be16(s, start) == n,
{
    let w = be16_bytes(n);
    assert(s.subrange(start, start + 2) == w);
    assert(s[start] == s.subrange(start, start + 2)[0]);
    assert(s[start + 1] == s.subrange(start, start + 2)[1]);
    lemma_be16(n);
}

proof fn lemma_holds_at_be32(s: Seq<u8>, start: int, n: int)
    requires
        0 <= n < 0x1_0000_0000,
        holds_at(s, start, be32_bytes(n)),
    ensures
        be32(s, start) == n,
{
    lemma_holds_at_split(s, start, be16_bytes(n / 0x1_0000), be16_bytes(n % 0x1_0000));
    lemma_holds_at_be16(s, start, n / 0x1_0000);
    lemma_holds_at_be16(s, start + 2, n % 0x1_0000);
}

proof fn lemma_holds_at_be64(s: Seq<u8>, start: int, n: int)
    requires
        0 <= n < 0x1_0000_0000_0000_0000,
        holds_at(s, start, be64_bytes(n)),
    ensures
        be64(s, start) == n,
{
    lemma_holds_at_split(s, start, be32_bytes(n / 0x1_0000_0000), be32_bytes(n % 0x1_0000_0000));
    lemma_holds_at_be32(s, start, n / 0x1_0000_0000);
    lemma_holds_at_be32(s, start + 4, n % 0x1_0000_0000);
}

/// A one-byte prefix.
proof fn lemma_holds_at_first(s: Seq<u8>, start: int, w: Seq<u8>)
    requires
        w.len() >= 1,
        holds_at(s, start, w),
    ensures
        s[start] == w[0],
{
    assert(s.subrange(start, start + w.len())[0] == s[start]);
}

proof fn lemma_write_items_front(items: Seq<RefView>)
    requires
        items.len() > 0,
    ensures
        spec_write_items(items) == then(
            spec_write_value(items[0]),
            spec_write_items(items.drop_first()),
        ),
    decreases items.len(),
{
    if items.len() == 1 {
        assert(items.drop_last() =~= Seq::<RefView>::empty());
        assert(items.drop_first() =~= Seq::<RefView>::empty());
        if spec_write_value(items[0]) is Some {
            assert(Seq::<u8>::empty() + spec_write_value(items[0]).unwrap() =~= spec_write_value(
                items[0],
            ).unwrap());
            assert(spec_write_value(items[0]).unwrap() + Seq::<u8>::empty() =~= spec_write_value(
                items[0],
            ).unwrap());
        }
    } else {
        lemma_write_items_front(items.drop_last());
        assert(items.drop_last().drop_first() =~= items.drop_first().drop_last());
        assert(items.drop_first().last() == items.last());
        assert(items.drop_last()[0] == items[0]);
        let a = spec_write_value(items[0]);
        let m = spec_write_items(items.drop_first().drop_last());
        let z = spec_write_value(items.last());
        if a is Some && m is Some && z is Some {
            assert(a.unwrap() + m.unwrap() + z.unwrap() =~= a.unwrap() + (m.unwrap() + z.unwrap()));
        }
    }
}

proof fn lemma_write_fields_front(fields: Seq<(Seq<char>, RefView)>)
    requires
        fields.len() > 0,
    ensures
        spec_write_fields(fields) == then(
            then(spec_write_str(fields[0].0), spec_write_value(fields[0].1)),
            spec_write_fields(fields.drop_first()),
        ),
    decreases fields.len(),
{
    let first = then(spec_write_str(fields[0].0), spec_write_value(fields[0].1));
    if fields.len() == 1 {
        assert(fields.drop_last() =~= Seq::<(Seq<char>, RefView)>::empty());
        assert(fields.drop_first() =~= Seq::<(Seq<char>, RefView)>::empty());
        if first is Some {
            assert(Seq::<u8>::empty() + first.unwrap() =~= first.unwrap());
            assert(first.unwrap() + Seq::<u8>::empty() =~= first.unwrap());
        }
    } else {
        lemma_write_fields_front(fields.drop_last());
        assert(fields.drop_last().drop_first() =~= fields.drop_first().drop_last());
        assert(fields.drop_first().last() == fields.last());
        assert(fields.drop_last()[0] == fields[0]);
        let m = spec_write_fields(fields.drop_first().drop_last());
        let z = then(spec_write_str(fields.last().0), spec_write_value(fields.last().1));
        if first is Some && m is Some && z is Some {
            assert(first.unwrap() + m.unwrap() + z.unwrap() =~= first.unwrap() + (m.unwrap()
                + z.unwrap()));
        }
    }
}

/// A written string reads back as itself.
proof fn lemma_roundtrip_str(chars: Seq<char>, s: Seq<u8>, start: int)
    requires
        spec_write_str(chars) is Some,
        holds_at(s, start, spec_write_str(chars).unwrap()),
    ensures
        spec_parse_value(s, start) == Decoded::Done(
            ValueView::String(chars),
            start + spec_write_str(chars).unwrap().len(),
        ),
        spec_write_str(chars).unwrap().len() >= 1,
{
    let b = encode_utf8(chars);
    let h = str_header(b.len()).unwrap();
    encode_utf8_valid_utf8(chars);
    encode_utf8_decode_utf8(chars);
    lemma_holds_at_split(s, start, h, b);
    lemma_holds_at_first(s, start, h);
    if b.len() <= 31 {
    } else if b.len() <= 0xffff {
        lemma_holds_at_split(s, start, seq![STR16], be16_bytes(b.len() as int));
        lemma_holds_at_be16(s, start + 1, b.len() as int);
    } else {
        lemma_holds_at_split(s, start, seq![STR32], be32_bytes(b.len() as int));
        lemma_holds_at_be32(s, start + 1, b.len() as int);
    }
    assert(s.subrange(start + h.len(), start + h.len() + b.len()) == b);
}

proof fn lemma_roundtrip_integer(n: i64, s: Seq<u8>, start: int)
    requires
        holds_at(s, start, spec_write_value(RefView::Integer(n)).unwrap()),
    ensures
        spec_parse_value(s, start) == Decoded::Done(
            ValueView::Integer(n),
            start + spec_write_value(RefView::Integer(n)).unwrap().len(),
        ),
{
    let w = spec_write_value(RefView::Integer(n)).unwrap();
    lemma_holds_at_first(s, start, w);
    if !(-32 <= n < 128) {
        let u = if n < 0 { n + 0x1_0000_0000_0000_0000 } else { n as int };
        lemma_holds_at_split(s, start, seq![INT64], be64_bytes(u));
        lemma_holds_at_be64(s, start + 1, u);
    }
}

proof fn lemma_roundtrip_uinteger(n: u64, s: Seq<u8>, start: int)
    requires
        holds_at(s, start, spec_write_value(RefView::UInteger(n)).unwrap()),
    ensures
        spec_parse_value(s, start) == Decoded::Done(
            ValueView::UInteger(n),
            start + spec_write_value(RefView::UInteger(n)).unwrap().len(),
        ),
{
    let w = spec_write_value(RefView::UInteger(n)).unwrap();
    lemma_holds_at_first(s, start, w);
    if n < 0x100 {
        assert(s.subrange(start, start + 2)[1] == s[start + 1]);
    } else if n < 0x1_0000 {
        lemma_holds_at_split(s, start, seq![UINT16], be16_bytes(n as int));
        lemma_holds_at_be16(s, start + 1, n as int);
    } else if n < 0x1_0000_0000 {
        lemma_holds_at_split(s, start, seq![UINT32], be32_bytes(n as int));
        lemma_holds_at_be32(s, start + 1, n as int);
    } else {
        lemma_holds_at_split(s, start, seq![UINT64], be64_bytes(n as int));
        lemma_holds_at_be64(s, start + 1, n as int);
    }
}

proof fn lemma_roundtrip_float(bits: u64, s: Seq<u8>, start: int)
    requires
        holds_at(s, start, spec_write_value(RefView::Float(bits)).unwrap()),
    ensures
        spec_parse_value(s, start) == Decoded::Done(
            ValueView::Float(bits),
            start + spec_write_value(RefView::Float(bits)).unwrap().len(),
        ),
{
    let w = spec_write_value(RefView::Float(bits)).unwrap();
    lemma_holds_at_first(s, start, w);
    lemma_holds_at_split(s, start, seq![FLOAT64], be64_bytes(bits as int));
    lemma_holds_at_be64(s, start + 1, bits as int);
}

/// An array header reads back as its length, and the items start after it.
proof fn lemma_array_header(len: nat, s: Seq<u8>, start: int, rest: Seq<u8>)
    requires
        array_header(len) is Some,
        holds_at(s, start, array_header(len).unwrap() + rest),
    ensures
        spec_parse_value(s, start) == wrap_array(
            spec_parse_array(s, start + array_header(len).unwrap().len(), len, Seq::empty()),
        ),
        holds_at(s, start + array_header(len).unwrap().len(), rest),
{
    let h = array_header(len).unwrap();
    lemma_holds_at_split(s, start, h, rest);
    lemma_holds_at_first(s, start, h);
    if len <= 15 {
    } else if len <= 0xffff {
        lemma_holds_at_split(s, start, seq![ARRAY16], be16_bytes(len as int));
        lemma_holds_at_be16(s, start + 1, len as int);
    } else {
        lemma_holds_at_split(s, start, seq![ARRAY32], be32_bytes(len as int));
        lemma_holds_at_be32(s, start + 1, len as int);
    }
}

/// A map header reads back as its length, and the entries start after it.
proof fn lemma_map_header(len: nat, s: Seq<u8>, start: int, rest: Seq<u8>)
    requires
        map_header(len) is Some,
        holds_at(s, start, map_header(len).unwrap() + rest),
    ensures
        spec_parse_value(s, start) == wrap_dict(
            spec_parse_dict(s, start + map_header(len).unwrap().len(), len, Seq::empty()),
        ),
        holds_at(s, start + map_header(len).unwrap().len(), rest),
{
    let h = map_header(len).unwrap();
    lemma_holds_at_split(s, start, h, rest);
    lemma_holds_at_first(s, start, h);
    if len <= 15 {
    } else if len <= 0xffff {
        lemma_holds_at_split(s, start, seq![MAP16], be16_bytes(len as int));
        lemma_holds_at_be16(s, start + 1, len as int);
    } else {
        lemma_holds_at_split(s, start, seq![MAP32], be32_bytes(len as int));
        lemma_holds_at_be32(s, start + 1, len as int);
    }
}

/// Reading back a written value, wherever its bytes stand in the input,
/// gives the value back and stops right after its bytes.
pub proof fn lemma_roundtrip_value(v: RefView, s: Seq<u8>, start: int)
    requires
        plain(v),
        spec_write_value(v) is Some,
        holds_at(s, start, spec_write_value(v).unwrap()),
    ensures
        spec_parse_value(s, start) == Decoded::Done(
            decoded(v),
            start + spec_write_value(v).unwrap().len(),
        ),
        spec_write_value(v).unwrap().len() >= 1,
    decreases v,
{
    let w = spec_write_value(v).unwrap();
    match v {
        RefView::Nil => {
            lemma_holds_at_first(s, start, w);
        },
        RefView::Boolean(_) => {
            lemma_holds_at_first(s, start, w);
        },
        RefView::String(chars) => {
            lemma_roundtrip_str(chars, s, start);
        },
        RefView::Integer(n) => {
            lemma_roundtrip_integer(n, s, start);
        },
        RefView::UInteger(n) => {
            lemma_roundtrip_uinteger(n, s, start);
        },
        RefView::Float(bits) => {
            lemma_roundtrip_float(bits, s, start);
        },
        RefView::Array(items) => {
            let h = array_header(items.len()).unwrap();
            let body = spec_write_items(items).unwrap();
            lemma_array_header(items.len(), s, start, body);
            lemma_roundtrip_items(items, s, start + h.len(), Seq::empty());
            assert(Seq::<ValueView>::empty() + decoded_items(items) =~= decoded_items(items));
        },
        RefView::Dict(fields) => {
            let h = map_header(fields.len()).unwrap();
            let body = spec_write_fields(fields).unwrap();
            lemma_map_header(fields.len(), s, start, body);
            lemma_roundtrip_fields(fields, s, start + h.len(), Seq::empty());
            assert(Seq::<(Seq<char>, ValueView)>::empty() + decoded_fields(fields)
                =~= decoded_fields(fields));
        },
        RefView::Object(_) => {},
    }
}

/// Reading back written items, after the items `acc`.
pub proof fn lemma_roundtrip_items(items: Seq<RefView>, s: Seq<u8>, start: int, acc: Seq<ValueView>)
    requires
        plain_items(items),
        spec_write_items(items) is Some,
        holds_at(s, start, spec_write_items(items).unwrap()),
    ensures
        spec_parse_array(s, start, items.len(), acc) == Decoded::Done(
            acc + decoded_items(items),
            start + spec_write_items(items).unwrap().len(),
        ),
    decreases items,
{
    if items.len() == 0 {
        assert(acc + decoded_items(items) =~= acc);
    } else {
        lemma_write_items_front(items);
        let w0 = spec_write_value(items[0]).unwrap();
        let rest = spec_write_items(items.drop_first()).unwrap();
        lemma_holds_at_split(s, start, w0, rest);
        lemma_roundtrip_value(items[0], s, start);
        lemma_roundtrip_items(items.drop_first(), s, start + w0.len(), acc.push(decoded(items[0])));
        assert(acc.push(decoded(items[0])) + decoded_items(items.drop_first()) =~= acc
            + decoded_items(items));
    }
}

/// Reading back written key-value pairs into the entries `acc`, none of
/// whose keys is among them.
pub proof fn lemma_roundtrip_fields(
    fields: Seq<(Seq<char>, RefView)>,
    s: Seq<u8>,
    start: int,
    acc: Seq<(Seq<char>, ValueView)>,
)
    requires
        plain_fields(fields),
        fields_keys_distinct(fields),
        forall|i: int, j: int|
            0 <= i < acc.len() && 0 <= j < fields.len() ==> #[trigger] acc[i].0
                != #[trigger] fields[j].0,
        spec_write_fields(fields) is Some,
        holds_at(s, start, spec_write_fields(fields).unwrap()),
    ensures
        spec_parse_dict(s, start, fields.len(), acc) == Decoded::Done(
            acc + decoded_fields(fields),
            start + spec_write_fields(fields).unwrap().len(),
        ),
    decreases fields,
{
    if fields.len() == 0 {
        assert(acc + decoded_fields(fields) =~= acc);
    } else {
        lemma_write_fields_front(fields);
        let k = spec_write_str(fields[0].0).unwrap();
        let w0 = spec_write_value(fields[0].1).unwrap();
        let rest = spec_write_fields(fields.drop_first()).unwrap();
        lemma_holds_at_split(s, start, k + w0, rest);
        lemma_holds_at_split(s, start, k, w0);
        lemma_roundtrip_str(fields[0].0, s, start);
        lemma_roundtrip_value(fields[0].1, s, start + k.len());
        lemma_dict_index_of_bounds(acc, fields[0].0);
        let d0 = decoded(fields[0].1);
        assert(dict_insert(acc, fields[0].0, d0) == acc.push((fields[0].0, d0)));
        let acc2 = acc.push((fields[0].0, d0));
        assert forall|i: int, j: int|
            0 <= i < acc2.len() && 0 <= j < fields.drop_first().len() implies #[trigger] acc2[i].0
            != #[trigger] fields.drop_first()[j].0 by {
            if i < acc.len() {
                assert(acc2[i] == acc[i]);
                assert(fields.drop_first()[j] == fields[j + 1]);
            } else {
                assert(fields.drop_first()[j] == fields[j + 1]);
            }
        }
        lemma_roundtrip_fields(fields.drop_first(), s, start + k.len() + w0.len(), acc2);
        assert(acc2 + decoded_fields(fields.drop_first()) =~= acc + decoded_fields(fields));
    }
}

/// A message written by `MsgPack::serialize` reads back, through
/// `MsgPack::deserialize`, as a one-entry map: the message's header announces
/// one entry, so its first field is what is read, and decoding stops right
/// after that field.
pub proof fn lemma_message_roundtrip(fields: Seq<(Seq<char>, RefView)>)
    requires
        fields.len() >= 1,
        plain(fields[0].1),
        spec_write_fields(fields) is Some,
    ensures
        spec_deserialize(seq![0x81u8] + spec_write_fields(fields).unwrap()) == Decoded::Done(
            ValueView::Dict(seq![(fields[0].0, decoded(fields[0].1))]),
            1 + then(spec_write_str(fields[0].0), spec_write_value(fields[0].1)).unwrap().len() as int,
        ),
{
    let body = spec_write_fields(fields).unwrap();
    let s = seq![0x81u8] + body;
    lemma_write_fields_front(fields);
    let first = then(spec_write_str(fields[0].0), spec_write_value(fields[0].1)).unwrap();
    let rest = spec_write_fields(fields.drop_first()).unwrap();
    assert(map_header(1) == Some(seq![0x81u8]));
    assert(s.subrange(0, s.len() as int) =~= s);
    lemma_map_header(1, s, 0, body);
    lemma_holds_at_split(s, 1, first, rest);
    let single = seq![fields[0]];
    lemma_write_fields_front(single);
    assert(single.drop_first() =~= Seq::<(Seq<char>, RefView)>::empty());
    assert(first + Seq::<u8>::empty() =~= first);
    assert(plain_fields(single.drop_first()));
    assert(plain_fields(single));
    lemma_roundtrip_fields(single, s, 1, Seq::empty());
    assert(decoded_fields(single.drop_first()) =~= Seq::<(Seq<char>, ValueView)>::empty());
    assert(Seq::<(Seq<char>, ValueView)>::empty() + decoded_fields(single) =~= seq![
        (fields[0].0, decoded(fields[0].1)),
    ]);
}

} // verus!
