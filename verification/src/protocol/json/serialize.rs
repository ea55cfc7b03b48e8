use vstd::prelude::*;
use vstd::string::StringExecFns;

use super::number::{display_number, len_up_to_2, push_number};
use super::value::{fields_view, lemma_fields_view, lemma_refs_view, refs_view, RefView, ValueRef};
use super::Json;
use crate::util::text::{hex_digit, hex_digit_char, push_char};

verus! {

/// Whether a character is a control character (general category Cc).
pub open spec fn is_control(c: char) -> bool {
    c as u32 <= 0x1f || (0x7f <= c as u32 && c as u32 <= 0x9f)
}

/// Four lower-case hexadecimal digits of a number below 0x10000.
pub open spec fn hex4(n: nat) -> Seq<char> {
    seq![
        hex_digit_char(n / 0x1000 % 16),
        hex_digit_char(n / 0x100 % 16),
        hex_digit_char(n / 0x10 % 16),
        hex_digit_char(n % 16),
    ]
}

/// How one character is written inside a JSON string.
pub open spec fn escape_char(c: char) -> Seq<char> {
    if c == '"' {
        seq!['\\', '"']
    } else if c == '\\' {
        seq!['\\', '\\']
    } else if c == '\n' {
        seq!['\\', 'n']
    } else if c == '\r' {
        seq!['\\', 'r']
    } else if c == '\t' {
        seq!['\\', 't']
    } else if is_control(c) {
        seq!['\\', 'u'] + hex4(c as nat)
    } else {
        seq![c]
    }
}

/// How a text is written inside a JSON string.
pub open spec fn escape(s: Seq<char>) -> Seq<char>
    decreases s.len(),
{
    if s.len() == 0 {
        Seq::empty()
    } else {
        escape(s.drop_last()) + escape_char(s.last())
    }
}

/// The separator written before the next element of a container, given
/// what the container holds so far: a comma once that is longer than one
/// character.
pub open spec fn comma_after(prev: Seq<char>) -> Seq<char> {
    if prev.len() > 1 {
        seq![',']
    } else {
        Seq::empty()
    }
}

/// A value written as JSON.
pub open spec fn json_value(v: RefView) -> Seq<char>
    decreases v,
{
    match v {
        RefView::String(s) => seq!['"'] + escape(s) + seq!['"'],
        RefView::Number(n) => display_number(n as nat),
        RefView::Boolean(b) => if b {
            "true"@
        } else {
            "false"@
        },
        RefView::Array(items) => seq!['['] + json_items(items) + seq![']'],
        RefView::Object(fields) => seq!['{'] + json_fields(fields) + seq!['}'],
        RefView::Null => "null"@,
    }
}

/// The elements of an array written one after the other.
pub open spec fn json_items(items: Seq<RefView>) -> Seq<char>
    decreases items,
{
    if items.len() == 0 {
        Seq::empty()
    } else {
        let prev = json_items(items.drop_last());
        prev + comma_after(prev) + json_value(items.last())
    }
}

/// The members of an object written one after the other, each as its
/// quoted key, a colon and its value.
pub open spec fn json_fields(fields: Seq<(Seq<char>, RefView)>) -> Seq<char>
    decreases fields,
{
    if fields.len() == 0 {
        Seq::empty()
    } else {
        let prev = json_fields(fields.drop_last());
        prev + comma_after(prev) + seq!['"'] + escape(fields.last().0) + seq!['"', ':']
            + json_value(fields.last().1)
    }
}

/// A value that can be written as a JSON object: a list of named members.
pub trait Serialize {
    /// The members, in order.
    spec fn spec_fields(&self) -> Seq<(Seq<char>, RefView)>;

    /// The members, in order.
    fn serialize_fields(&self) -> (r: Vec<(String, ValueRef)>)
        ensures
            fields_view(r@) == self.spec_fields(),
    ;
}

/// A value that can be written as a member of an object.
pub trait SerializeObj: Serialize {

}

impl<T: Serialize> SerializeObj for T {

}

/// The text written so far.
pub struct SerializeState {
    pub buf: String,
}

/// Appends four hexadecimal digits of a number below 0x10000.
fn push_hex4(buf: &mut String, n: u32)
    requires
        n < 0x10000,
    ensures
        final(buf)@ == old(buf)@ + hex4(n as nat),
{
    push_char(buf, hex_digit((n / 0x1000 % 16) as u8));
    push_char(buf, hex_digit((n / 0x100 % 16) as u8));
    push_char(buf, hex_digit((n / 0x10 % 16) as u8));
    push_char(buf, hex_digit((n % 16) as u8));
    assert(buf@ =~= old(buf)@ + hex4(n as nat));
}

/// Appends one character as written inside a JSON string.
fn push_escaped_char(buf: &mut String, c: char)
    ensures
        final(buf)@ == old(buf)@ + escape_char(c),
{
    if c == '"' {
        push_char(buf, '\\');
        push_char(buf, '"');
    } else if c == '\\' {
        push_char(buf, '\\');
        push_char(buf, '\\');
    } else if c == '\n' {
        push_char(buf, '\\');
        push_char(buf, 'n');
    } else if c == '\r' {
        push_char(buf, '\\');
        push_char(buf, 'r');
    } else if c == '\t' {
        push_char(buf, '\\');
        push_char(buf, 't');
    } else if (c as u32) <= 0x1f || (0x7f <= (c as u32) && (c as u32) <= 0x9f) {
        push_char(buf, '\\');
        push_char(buf, 'u');
        push_hex4(buf, c as u32);
    } else {
        push_char(buf, c);
    }
    assert(buf@ =~= old(buf)@ + escape_char(c));
}

/// Appends a text as written inside a JSON string.
pub fn push_escaped(buf: &mut String, s: &str)
    ensures
        final(buf)@ == old(buf)@ + escape(s@),
{
    broadcast use vstd::string::group_string_axioms;

    for c in it: s.chars()
        invariant
            it.seq() == s@,
            buf@ == old(buf)@ + escape(s@.take(it.index() as int)),
    {
        assert(s@.take(it.index() + 1).drop_last() =~= s@.take(it.index() as int));
        assert(s@.take(it.index() + 1).last() == c);
        push_escaped_char(buf, c);
        assert(buf@ =~= old(buf)@ + escape(s@.take(it.index() + 1)));
    }
    assert(s@.take(s@.len() as int) =~= s@);
}

/// Appends a literal.
fn push_str(buf: &mut String, s: &str)
    ensures
        final(buf)@ == old(buf)@ + s@,
{
    buf.append(s);
}

/// Appends a value written as JSON; gives how many characters that is,
/// counted up to two.
pub fn write_value(value: &ValueRef, buf: &mut String) -> (r: u8)
    ensures
        final(buf)@ == old(buf)@ + json_value(value@),
        r == len_up_to_2(json_value(value@)),
        r >= 1,
    decreases value,
{
    match value {
        ValueRef::String(s) => {
            push_char(buf, '"');
            push_escaped(buf, s.as_str());
            push_char(buf, '"');
            assert(buf@ =~= old(buf)@ + json_value(value@));
            2
        },
        ValueRef::Number(n) => push_number(buf, *n),
        ValueRef::Boolean(b) => {
            proof {
                reveal_strlit("true");
                reveal_strlit("false");
            }
            if *b {
                push_str(buf, "true");
            } else {
                push_str(buf, "false");
            }
            2
        },
        ValueRef::Null => {
            proof {
                reveal_strlit("null");
            }
            push_str(buf, "null");
            2
        },
        ValueRef::Array(items) => {
            let ghost iv = refs_view(items@);
            proof {
                lemma_refs_view(items@);
            }
            push_char(buf, '[');
            let ghost start = buf@;
            let mut small: u8 = 0;
            let mut i: usize = 0;
            while i < items.len()
                invariant
                    i <= items@.len(),
                    *value == ValueRef::Array(*items),
                    iv == refs_view(items@),
                    iv.len() == items@.len(),
                    forall|j: int| 0 <= j < items@.len() ==> #[trigger] iv[j] == items@[j]@,
                    buf@ == start + json_items(iv.take(i as int)),
                    small == len_up_to_2(json_items(iv.take(i as int))),
                decreases items@.len() - i,
            {
                let ghost prev = json_items(iv.take(i as int));
                assert(iv.take(i + 1).drop_last() =~= iv.take(i as int));
                assert(iv.take(i + 1).last() == items@[i as int]@);
                if small == 2 {
                    push_char(buf, ',');
                }
                let item = &items[i];
                proof {
                    assert(decreases_to!(*value => (*value)->Array_0));
                    assert(decreases_to!(*items => items@));
                    assert(decreases_to!(items@ => items@[i as int]));
                }
                let w = write_value(item, buf);
                small = if small == 0 {
                    w
                } else {
                    2
                };
                i = i + 1;
                assert(buf@ =~= start + json_items(iv.take(i as int)));
            }
            assert(iv.take(items@.len() as int) =~= iv);
            push_char(buf, ']');
            assert(buf@ =~= old(buf)@ + json_value(value@));
            2
        },
        ValueRef::Object(fields) => {
            let ghost fv = fields_view(fields@);
            proof {
                lemma_fields_view(fields@);
            }
            push_char(buf, '{');
            let ghost start = buf@;
            let mut i: usize = 0;
            while i < fields.len()
                invariant
                    i <= fields@.len(),
                    *value == ValueRef::Object(*fields),
                    fv == fields_view(fields@),
                    fv.len() == fields@.len(),
                    forall|j: int|
                        0 <= j < fields@.len() ==> #[trigger] fv[j] == (fields@[j].0@, fields@[j].1@),
                    buf@ == start + json_fields(fv.take(i as int)),
                    i > 0 ==> json_fields(fv.take(i as int)).len() >= 2,
                    i == 0 ==> json_fields(fv.take(i as int)).len() == 0,
                decreases fields@.len() - i,
            {
                assert(fv.take(i + 1).drop_last() =~= fv.take(i as int));
                assert(fv.take(i + 1).last() == (fields@[i as int].0@, fields@[i as int].1@));
                if i > 0 {
                    push_char(buf, ',');
                }
                let (k, v) = (&fields[i].0, &fields[i].1);
                push_char(buf, '"');
                push_escaped(buf, k.as_str());
                push_char(buf, '"');
                push_char(buf, ':');
                proof {
                    assert(decreases_to!(*value => (*value)->Object_0));
                    assert(decreases_to!(*fields => fields@));
                    assert(decreases_to!(fields@ => fields@[i as int]));
                    assert(decreases_to!(fields@[i as int] => fields@[i as int].1));
                }
                write_value(v, buf);
                i = i + 1;
                assert(buf@ =~= start + json_fields(fv.take(i as int)));
            }
            assert(fv.take(fields@.len() as int) =~= fv);
            push_char(buf, '}');
            assert(buf@ =~= old(buf)@ + json_value(value@));
            2
        },
    }
}

impl Json {
    /// Writes a value as a JSON object of its members.
    pub fn serialize<T: Serialize>(value: &T) -> (r: crate::Result<String>)
        ensures
            r matches Ok(s) && s@ == seq!['{'] + json_fields(value.spec_fields()) + seq!['}'],
    {
        let fields = value.serialize_fields();
        let v = ValueRef::Object(fields);
        let mut buf = String::new();
        write_value(&v, &mut buf);
        assert(buf@ =~= seq!['{'] + json_fields(value.spec_fields()) + seq!['}']);
        Ok(buf)
    }
}

/// A member holding a text, when there is one.
pub open spec fn opt_member(key: Seq<char>, o: Option<Seq<char>>) -> Seq<(Seq<char>, RefView)> {
    match o {
        Some(s) => seq![(key, RefView::String(s))],
        None => Seq::empty(),
    }
}

/// Adds a member.
pub fn push_member(v: &mut Vec<(String, ValueRef)>, key: &str, value: ValueRef)
    ensures
        fields_view(final(v)@) == fields_view(old(v)@).push((key@, value@)),
{
    let ghost k = key@;
    let ghost val = value@;
    v.push((String::from_str(key), value));
    assert(final(v)@.drop_last() =~= old(v)@);
}

/// Adds a member holding a copy of a text, when there is one.
pub fn push_opt_member(v: &mut Vec<(String, ValueRef)>, key: &str, o: &Option<String>)
    ensures
        fields_view(final(v)@) == fields_view(old(v)@) + opt_member(key@, crate::protocol::msgpack::fields::opt_str(*o)),
{
    match o {
        Some(s) => {
            push_member(v, key, ValueRef::String(s.clone()));
            assert(fields_view(v@) =~= fields_view(old(v)@) + opt_member(key@, crate::protocol::msgpack::fields::opt_str(*o)));
        },
        None => {
            assert(fields_view(v@) =~= fields_view(old(v)@) + opt_member(key@, crate::protocol::msgpack::fields::opt_str(*o)));
        },
    }
}

/// A text with no quote, backslash or control character is written as it
/// is inside a JSON string.
pub proof fn lemma_escape_plain(s: Seq<char>)
    requires
        forall|i: int| 0 <= i < s.len() ==> s[i] != '"' && s[i] != '\\' && !is_control(#[trigger] s[i]),
    ensures
        escape(s) == s,
    decreases s.len(),
{
    if s.len() > 0 {
        assert forall|i: int| 0 <= i < s.drop_last().len() implies s.drop_last()[i] != '"' && s.drop_last()[i] != '\\' && !is_control(#[trigger] s.drop_last()[i]) by {
            assert(s.drop_last()[i] == s[i]);
        }
        lemma_escape_plain(s.drop_last());
        let c = s.last();
        assert(s[s.len() - 1] == c);
        assert(c != '\n' && c != '\r' && c != '\t') by {
            assert(!is_control(s[s.len() - 1]));
        }
        assert(s.drop_last() + seq![c] =~= s);
    }
}

/// The value of the first member named `key`, if there is one: what a
/// reader of the written object finds under that key.
pub open spec fn member(m: Seq<(Seq<char>, RefView)>, key: Seq<char>) -> Option<RefView>
    decreases m.len(),
{
    if m.len() == 0 {
        None
    } else if m[0].0 == key {
        Some(m[0].1)
    } else {
        member(m.drop_first(), key)
    }
}

/// An optional text as the string it is written as.
pub open spec fn text_value(o: Option<Seq<char>>) -> Option<RefView> {
    match o {
        Some(s) => Some(RefView::String(s)),
        None => None,
    }
}

/// Looking up a key in two member lists written one after the other finds
/// it in the first, else in the second.
pub proof fn lemma_member_concat(a: Seq<(Seq<char>, RefView)>, b: Seq<(Seq<char>, RefView)>, key: Seq<char>)
    ensures
        member(a + b, key) == match member(a, key) {
            Some(v) => Some(v),
            None => member(b, key),
        },
    decreases a.len(),
{
    if a.len() == 0 {
        assert(a + b =~= b);
    } else {
        assert((a + b)[0] == a[0]);
        assert((a + b).drop_first() =~= a.drop_first() + b);
        lemma_member_concat(a.drop_first(), b, key);
    }
}

/// A single member holds its value under its own key only.
pub proof fn lemma_member_single(k: Seq<char>, v: RefView, key: Seq<char>)
    ensures
        member(seq![(k, v)], key) == if k == key {
            Some(v)
        } else {
            None
        },
{
    reveal_with_fuel(member, 2);
    assert(seq![(k, v)].drop_first() =~= Seq::<(Seq<char>, RefView)>::empty());
}

/// An optional text member holds the text under its own key only.
pub proof fn lemma_member_opt(k: Seq<char>, o: Option<Seq<char>>, key: Seq<char>)
    ensures
        member(opt_member(k, o), key) == if k == key {
            text_value(o)
        } else {
            None
        },
{
    reveal_with_fuel(member, 2);
    if o is Some {
        assert(opt_member(k, o).drop_first() =~= Seq::<(Seq<char>, RefView)>::empty());
    }
}

} // verus!
