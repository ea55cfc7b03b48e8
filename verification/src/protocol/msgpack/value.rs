use vstd::prelude::*;

use crate::util::text::str_eq;

verus! {

/// A decoded MessagePack value.
///
/// Floating-point numbers are carried as their IEEE-754 double-precision bit
/// pattern; a map is a list of entries whose keys are pairwise distinct.
/// (A list, not a `HashMap`: vstd's `HashMap` specification covers only
/// keys with a hashing model, which text keys do not have.)
#[derive(Debug)]
pub enum Value {
    Nil,
    Boolean(bool),
    Integer(i64),
    UInteger(u64),
    Float(u64),
    String(String),
    Binary(Vec<u8>),
    Array(Vec<Value>),
    Dict(Vec<(String, Value)>),
}

/// The mathematical content of a [`Value`]: strings as character sequences.
pub enum ValueView {
    Nil,
    Boolean(bool),
    Integer(i64),
    UInteger(u64),
    Float(u64),
    String(Seq<char>),
    Binary(Seq<u8>),
    Array(Seq<ValueView>),
    Dict(Seq<(Seq<char>, ValueView)>),
}

impl View for Value {
    type V = ValueView;

    open spec fn view(&self) -> ValueView {
        value_view(*self)
    }
}

/// The view of a value.
pub open spec fn value_view(v: Value) -> ValueView
    decreases v,
{
    match v {
        Value::Nil => ValueView::Nil,
        Value::Boolean(b) => ValueView::Boolean(b),
        Value::Integer(n) => ValueView::Integer(n),
        Value::UInteger(n) => ValueView::UInteger(n),
        Value::Float(bits) => ValueView::Float(bits),
        Value::String(s) => ValueView::String(s@),
        Value::Binary(b) => ValueView::Binary(b@),
        Value::Array(items) => ValueView::Array(items_view(items@)),
        Value::Dict(entries) => ValueView::Dict(entries_view(entries@)),
    }
}

/// The views of a list of values.
pub open spec fn items_view(items: Seq<Value>) -> Seq<ValueView>
    decreases items,
{
    if items.len() == 0 {
        Seq::empty()
    } else {
        items_view(items.drop_last()).push(value_view(items.last()))
    }
}

/// The views of the entries of a map.
pub open spec fn entries_view(entries: Seq<(String, Value)>) -> Seq<(Seq<char>, ValueView)>
    decreases entries,
{
    if entries.len() == 0 {
        Seq::empty()
    } else {
        entries_view(entries.drop_last()).push((entries.last().0@, value_view(entries.last().1)))
    }
}

pub proof fn lemma_items_view(items: Seq<Value>)
    ensures
        items_view(items).len() == items.len(),
        forall|i: int| 0 <= i < items.len() ==> #[trigger] items_view(items)[i] == items[i]@,
    decreases items.len(),
{
    if items.len() > 0 {
        lemma_items_view(items.drop_last());
        assert forall|i: int| 0 <= i < items.len() implies #[trigger] items_view(items)[i]
            == items[i]@ by {
            if i < items.len() - 1 {
                assert(items.drop_last()[i] == items[i]);
            }
        }
    }
}

pub proof fn lemma_entries_view(entries: Seq<(String, Value)>)
    ensures
        entries_view(entries).len() == entries.len(),
        forall|i: int|
            0 <= i < entries.len() ==> #[trigger] entries_view(entries)[i] == (
                entries[i].0@,
                entries[i].1@,
            ),
    decreases entries.len(),
{
    if entries.len() > 0 {
        lemma_entries_view(entries.drop_last());
        assert forall|i: int| 0 <= i < entries.len() implies #[trigger] entries_view(entries)[i]
            == (entries[i].0@, entries[i].1@) by {
            if i < entries.len() - 1 {
                assert(entries.drop_last()[i] == entries[i]);
            }
        }
    }
}

/// Two lists of values with the same element views have the same view.
pub proof fn lemma_items_view_ext(a: Seq<Value>, b: Seq<ValueView>)
    requires
        a.len() == b.len(),
        forall|i: int| 0 <= i < a.len() ==> #[trigger] a[i]@ == b[i],
    ensures
        items_view(a) == b,
{
    lemma_items_view(a);
    assert(items_view(a) =~= b);
}

pub proof fn lemma_entries_view_ext(a: Seq<(String, Value)>, b: Seq<(Seq<char>, ValueView)>)
    requires
        a.len() == b.len(),
        forall|i: int| 0 <= i < a.len() ==> (#[trigger] a[i]).0@ == b[i].0 && a[i].1@ == b[i].1,
    ensures
        entries_view(a) == b,
{
    lemma_entries_view(a);
    assert(entries_view(a) =~= b);
}

/// A value to be written as MessagePack.
///
/// An `Object` is written as its key-value pairs alone, with no map header;
/// a `Dict` is a map with a header. Floating-point numbers are carried as
/// their IEEE-754 double-precision bit pattern.
#[derive(Debug)]
pub enum ValueRef {
    Nil,
    String(String),
    Float(u64),
    Integer(i64),
    UInteger(u64),
    Boolean(bool),
    Array(Vec<ValueRef>),
    Object(Vec<(String, ValueRef)>),
    Dict(Vec<(String, ValueRef)>),
}

/// The mathematical content of a [`ValueRef`].
pub enum RefView {
    Nil,
    String(Seq<char>),
    Float(u64),
    Integer(i64),
    UInteger(u64),
    Boolean(bool),
    Array(Seq<RefView>),
    Object(Seq<(Seq<char>, RefView)>),
    Dict(Seq<(Seq<char>, RefView)>),
}

impl View for ValueRef {
    type V = RefView;

    open spec fn view(&self) -> RefView {
        ref_view(*self)
    }
}

/// The view of a value to be written.
pub open spec fn ref_view(v: ValueRef) -> RefView
    decreases v,
{
    match v {
        ValueRef::Nil => RefView::Nil,
        ValueRef::String(s) => RefView::String(s@),
        ValueRef::Float(bits) => RefView::Float(bits),
        ValueRef::Integer(n) => RefView::Integer(n),
        ValueRef::UInteger(n) => RefView::UInteger(n),
        ValueRef::Boolean(b) => RefView::Boolean(b),
        ValueRef::Array(items) => RefView::Array(refs_view(items@)),
        ValueRef::Object(fields) => RefView::Object(fields_view(fields@)),
        ValueRef::Dict(fields) => RefView::Dict(fields_view(fields@)),
    }
}

/// The views of a list of values to be written.
pub open spec fn refs_view(items: Seq<ValueRef>) -> Seq<RefView>
    decreases items,
{
    if items.len() == 0 {
        Seq::empty()
    } else {
        refs_view(items.drop_last()).push(ref_view(items.last()))
    }
}

/// The views of a list of named values to be written.
pub open spec fn fields_view(fields: Seq<(String, ValueRef)>) -> Seq<(Seq<char>, RefView)>
    decreases fields,
{
    if fields.len() == 0 {
        Seq::empty()
    } else {
        fields_view(fields.drop_last()).push((fields.last().0@, ref_view(fields.last().1)))
    }
}

pub proof fn lemma_refs_view(items: Seq<ValueRef>)
    ensures
        refs_view(items).len() == items.len(),
        forall|i: int| 0 <= i < items.len() ==> #[trigger] refs_view(items)[i] == items[i]@,
    decreases items.len(),
{
    if items.len() > 0 {
        lemma_refs_view(items.drop_last());
        assert forall|i: int| 0 <= i < items.len() implies #[trigger] refs_view(items)[i]
            == items[i]@ by {
            if i < items.len() - 1 {
                assert(items.drop_last()[i] == items[i]);
            }
        }
    }
}

pub proof fn lemma_fields_view(fields: Seq<(String, ValueRef)>)
    ensures
        fields_view(fields).len() == fields.len(),
        forall|i: int|
            0 <= i < fields.len() ==> #[trigger] fields_view(fields)[i] == (
                fields[i].0@,
                fields[i].1@,
            ),
    decreases fields.len(),
{
    if fields.len() > 0 {
        lemma_fields_view(fields.drop_last());
        assert forall|i: int| 0 <= i < fields.len() implies #[trigger] fields_view(fields)[i]
            == (fields[i].0@, fields[i].1@) by {
            if i < fields.len() - 1 {
                assert(fields.drop_last()[i] == fields[i]);
            }
        }
    }
}

/// The position of the entry with key `key`, or -1 when there is none.
pub open spec fn dict_index_of(entries: Seq<(Seq<char>, ValueView)>, key: Seq<char>) -> int
    decreases entries.len(),
{
    if entries.len() == 0 {
        -1
    } else if entries.last().0 == key {
        entries.len() - 1
    } else {
        dict_index_of(entries.drop_last(), key)
    }
}

/// Inserting into a map: an existing entry for the key gets the new value,
/// otherwise the entry is appended.
pub open spec fn dict_insert(
    entries: Seq<(Seq<char>, ValueView)>,
    key: Seq<char>,
    value: ValueView,
) -> Seq<(Seq<char>, ValueView)> {
    let i = dict_index_of(entries, key);
    if i >= 0 {
        entries.update(i, (key, value))
    } else {
        entries.push((key, value))
    }
}

/// The value stored under `key`, if any.
pub open spec fn dict_get(entries: Seq<(Seq<char>, ValueView)>, key: Seq<char>) -> Option<ValueView> {
    let i = dict_index_of(entries, key);
    if i >= 0 {
        Some(entries[i].1)
    } else {
        None
    }
}

/// Every key occurs at most once.
pub open spec fn keys_distinct(entries: Seq<(Seq<char>, ValueView)>) -> bool {
    forall|i: int, j: int|
        0 <= i < j < entries.len() ==> #[trigger] entries[i].0 != #[trigger] entries[j].0
}

pub proof fn lemma_dict_index_of_bounds(entries: Seq<(Seq<char>, ValueView)>, key: Seq<char>)
    ensures
        -1 <= dict_index_of(entries, key) < entries.len(),
        dict_index_of(entries, key) >= 0 ==> entries[dict_index_of(entries, key)].0 == key,
        dict_index_of(entries, key) < 0 ==> forall|i: int|
            0 <= i < entries.len() ==> #[trigger] entries[i].0 != key,
    decreases entries.len(),
{
    if entries.len() > 0 {
        lemma_dict_index_of_bounds(entries.drop_last(), key);
        if entries.last().0 != key && dict_index_of(entries.drop_last(), key) < 0 {
            assert forall|i: int| 0 <= i < entries.len() implies #[trigger] entries[i].0 != key by {
                if i < entries.len() - 1 {
                    assert(entries[i] == entries.drop_last()[i]);
                }
            }
        }
    }
}

/// The position in `entries` of the entry with key `key`, looking from the end.
fn find_entry(entries: &Vec<(String, Value)>, key: &str) -> (r: Option<usize>)
    ensures
        match r {
            Some(i) => i < entries@.len() && i == dict_index_of(entries_view(entries@), key@),
            None => dict_index_of(entries_view(entries@), key@) == -1,
        },
{
    let ghost view = entries_view(entries@);
    proof {
        lemma_entries_view(entries@);
        lemma_dict_index_of_bounds(view, key@);
    }
    let mut i = entries.len();
    assert(view.subrange(0, i as int) =~= view);
    while i > 0
        invariant
            i <= entries@.len(),
            view == entries_view(entries@),
            view.len() == entries@.len(),
            forall|j: int|
                0 <= j < entries@.len() ==> #[trigger] view[j] == (entries@[j].0@, entries@[j].1@),
            dict_index_of(view, key@) == dict_index_of(view.subrange(0, i as int), key@),
        decreases i,
    {
        assert(view.subrange(0, i as int).drop_last() =~= view.subrange(0, i - 1));
        if str_eq(entries[i - 1].0.as_str(), key) {
            return Some(i - 1);
        }
        i = i - 1;
    }
    None
}

/// The value under `key` in a map's entries.
pub fn dict_get_entry<'a>(entries: &'a Vec<(String, Value)>, key: &str) -> (r: Option<&'a Value>)
    ensures
        match dict_get(entries_view(entries@), key@) {
            Some(v) => r matches Some(x) && x@ == v,
            None => r is None,
        },
{
    proof {
        lemma_entries_view(entries@);
    }
    match find_entry(entries, key) {
        Some(i) => Some(&entries[i].1),
        None => None,
    }
}

impl Value {
    /// The text of a string value.
    pub fn as_str(&self) -> (r: Option<&str>)
        ensures
            match self@ {
                ValueView::String(s) => r matches Some(x) && x@ == s,
                _ => r is None,
            },
    {
        match self {
            Value::String(s) => Some(s.as_str()),
            _ => None,
        }
    }

    /// The bytes of a binary value.
    pub fn as_bytes(&self) -> (r: Option<&[u8]>)
        ensures
            match self@ {
                ValueView::Binary(b) => r matches Some(x) && x@ == b,
                _ => r is None,
            },
    {
        match self {
            Value::Binary(b) => Some(b.as_slice()),
            _ => None,
        }
    }

    /// The items of an array value.
    pub fn as_array(&self) -> (r: Option<&[Value]>)
        ensures
            match self@ {
                ValueView::Array(items) => r matches Some(x) && items_view(x@) == items,
                _ => r is None,
            },
    {
        match self {
            Value::Array(a) => Some(a.as_slice()),
            _ => None,
        }
    }

    /// The entries of a map value.
    pub fn as_map(&self) -> (r: Option<&Vec<(String, Value)>>)
        ensures
            match self@ {
                ValueView::Dict(entries) => r matches Some(x) && entries_view(x@) == entries,
                _ => r is None,
            },
    {
        match self {
            Value::Dict(m) => Some(m),
            _ => None,
        }
    }

    /// A signed integer value, or an unsigned one that fits in an `i64`.
    pub fn as_integer(&self) -> (r: Option<i64>)
        ensures
            r == match self@ {
                ValueView::Integer(n) => Some(n),
                ValueView::UInteger(n) => if n <= i64::MAX {
                    Some(n as i64)
                } else {
                    None
                },
                _ => None::<i64>,
            },
    {
        match self {
            Value::Integer(n) => Some(*n),
            Value::UInteger(n) => if *n <= i64::MAX as u64 {
                Some(*n as i64)
            } else {
                None
            },
            _ => None,
        }
    }

    /// An unsigned integer value, or a signed one that is not negative.
    pub fn as_uinteger(&self) -> (r: Option<u64>)
        ensures
            r == match self@ {
                ValueView::UInteger(n) => Some(n),
                ValueView::Integer(n) => if n >= 0 {
                    Some(n as u64)
                } else {
                    None
                },
                _ => None::<u64>,
            },
    {
        match self {
            Value::UInteger(n) => Some(*n),
            Value::Integer(n) => if *n >= 0 {
                Some(*n as u64)
            } else {
                None
            },
            _ => None,
        }
    }

    /// The IEEE-754 double-precision bit pattern of a floating-point value.
    pub fn as_float(&self) -> (r: Option<u64>)
        ensures
            r == match self@ {
                ValueView::Float(bits) => Some(bits),
                _ => None::<u64>,
            },
    {
        match self {
            Value::Float(bits) => Some(*bits),
            _ => None,
        }
    }

    /// A boolean value.
    pub fn as_bool(&self) -> (r: Option<bool>)
        ensures
            r == match self@ {
                ValueView::Boolean(b) => Some(b),
                _ => None::<bool>,
            },
    {
        match self {
            Value::Boolean(b) => Some(*b),
            _ => None,
        }
    }

    /// Whether this is the nil value.
    pub fn is_nil(&self) -> (r: bool)
        ensures
            r == (self@ is Nil),
    {
        match self {
            Value::Nil => true,
            _ => false,
        }
    }

    /// The string of a string value, taken out.
    pub fn take_string(self) -> (r: Option<String>)
        ensures
            match self@ {
                ValueView::String(s) => r matches Some(x) && x@ == s,
                _ => r is None,
            },
    {
        match self {
            Value::String(s) => Some(s),
            _ => None,
        }
    }

    /// The bytes of a binary value, taken out.
    pub fn take_bytes(self) -> (r: Option<Vec<u8>>)
        ensures
            match self@ {
                ValueView::Binary(b) => r matches Some(x) && x@ == b,
                _ => r is None,
            },
    {
        match self {
            Value::Binary(b) => Some(b),
            _ => None,
        }
    }

    /// The items of an array value, taken out.
    pub fn take_array(self) -> (r: Option<Vec<Value>>)
        ensures
            match self@ {
                ValueView::Array(items) => r matches Some(x) && items_view(x@) == items,
                _ => r is None,
            },
    {
        match self {
            Value::Array(a) => Some(a),
            _ => None,
        }
    }

    /// The entries of a map value, taken out.
    pub fn take_map(self) -> (r: Option<Vec<(String, Value)>>)
        ensures
            match self@ {
                ValueView::Dict(entries) => r matches Some(x) && entries_view(x@) == entries,
                _ => r is None,
            },
    {
        match self {
            Value::Dict(m) => Some(m),
            _ => None,
        }
    }
}

} // verus!
