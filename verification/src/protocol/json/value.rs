use vstd::prelude::*;

verus! {

/// A value to be written as JSON.
///
/// Numbers are whole numbers; they are written as the double-precision
/// number they turn into would print.
#[derive(Debug)]
pub enum ValueRef {
    String(String),
    Number(u64),
    Boolean(bool),
    Array(Vec<ValueRef>),
    Object(Vec<(String, ValueRef)>),
    Null,
}

/// The content of a [`ValueRef`].
pub enum RefView {
    String(Seq<char>),
    Number(u64),
    Boolean(bool),
    Array(Seq<RefView>),
    Object(Seq<(Seq<char>, RefView)>),
    Null,
}

impl View for ValueRef {
    type V = RefView;

    open spec fn view(&self) -> RefView {
        ref_view(*self)
    }
}

/// The view of a value.
pub open spec fn ref_view(v: ValueRef) -> RefView
    decreases v,
{
    match v {
        ValueRef::String(s) => RefView::String(s@),
        ValueRef::Number(n) => RefView::Number(n),
        ValueRef::Boolean(b) => RefView::Boolean(b),
        ValueRef::Array(items) => RefView::Array(refs_view(items@)),
        ValueRef::Object(fields) => RefView::Object(fields_view(fields@)),
        ValueRef::Null => RefView::Null,
    }
}

/// The views of values.
pub open spec fn refs_view(items: Seq<ValueRef>) -> Seq<RefView>
    decreases items,
{
    if items.len() == 0 {
        Seq::empty()
    } else {
        refs_view(items.drop_last()).push(ref_view(items.last()))
    }
}

/// The views of named values.
pub open spec fn fields_view(fields: Seq<(String, ValueRef)>) -> Seq<(Seq<char>, RefView)>
    decreases fields,
{
    if fields.len() == 0 {
        Seq::empty()
    } else {
        fields_view(fields.drop_last()).push((fields.last().0@, ref_view(fields.last().1)))
    }
}

pub proof fn lemma_refs_view(items: Seq<ValueRef>)
    ensures
        refs_view(items).len() == items.len(),
        forall|i: int| 0 <= i < items.len() ==> #[trigger] refs_view(items)[i] == items[i]@,
    decreases items.len(),
{
    if items.len() > 0 {
        lemma_refs_view(items.drop_last());
        assert forall|i: int| 0 <= i < items.len() implies #[trigger] refs_view(items)[i]
            == items[i]@ by {
            if i < items.len() - 1 {
                assert(items.drop_last()[i] == items[i]);
            }
        }
    }
}

pub proof fn lemma_fields_view(fields: Seq<(String, ValueRef)>)
    ensures
        fields_view(fields).len() == fields.len(),
        forall|i: int|
            0 <= i < fields.len() ==> #[trigger] fields_view(fields)[i] == (
                fields[i].0@,
                fields[i].1@,
            ),
    decreases fields.len(),
{
    if fields.len() > 0 {
        lemma_fields_view(fields.drop_last());
        assert forall|i: int| 0 <= i < fields.len() implies #[trigger] fields_view(fields)[i]
            == (fields[i].0@, fields[i].1@) by {
            if i < fields.len() - 1 {
                assert(fields.drop_last()[i] == fields[i]);
            }
        }
    }
}

/// A decoded JSON value.
///
/// A number is kept as its text (`E` written as `e`), which has the shape of
/// a floating-point literal; a string is kept as written, escapes included;
/// an object is a list of members whose keys are pairwise distinct.
/// (A list, not a `HashMap`: vstd's `HashMap` specification covers only
/// keys with a hashing model, which text keys do not have.)
#[derive(Debug)]
pub enum Value {
    Null,
    Bool(bool),
    Number(String),
    String(String),
    Array(Vec<Value>),
    Object(Vec<(String, Value)>),
}

/// The content of a [`Value`].
pub enum JsonView {
    Null,
    Bool(bool),
    Number(Seq<char>),
    String(Seq<char>),
    Array(Seq<JsonView>),
    Object(Seq<(Seq<char>, JsonView)>),
}

impl View for Value {
    type V = JsonView;

    open spec fn view(&self) -> JsonView {
        value_view(*self)
    }
}

/// The view of a decoded value.
pub open spec fn value_view(v: Value) -> JsonView
    decreases v,
{
    match v {
        Value::Null => JsonView::Null,
        Value::Bool(b) => JsonView::Bool(b),
        Value::Number(s) => JsonView::Number(s@),
        Value::String(s) => JsonView::String(s@),
        Value::Array(items) => JsonView::Array(values_view(items@)),
        Value::Object(members) => JsonView::Object(members_view(members@)),
    }
}

/// The views of decoded values.
pub open spec fn values_view(items: Seq<Value>) -> Seq<JsonView>
    decreases items,
{
    if items.len() == 0 {
        Seq::empty()
    } else {
        values_view(items.drop_last()).push(value_view(items.last()))
    }
}

/// The views of decoded members.
pub open spec fn members_view(members: Seq<(String, Value)>) -> Seq<(Seq<char>, JsonView)>
    decreases members,
{
    if members.len() == 0 {
        Seq::empty()
    } else {
        members_view(members.drop_last()).push((members.last().0@, value_view(members.last().1)))
    }
}

pub proof fn lemma_values_view(items: Seq<Value>)
    ensures
        values_view(items).len() == items.len(),
        forall|i: int| 0 <= i < items.len() ==> #[trigger] values_view(items)[i] == items[i]@,
    decreases items.len(),
{
    if items.len() > 0 {
        lemma_values_view(items.drop_last());
        assert forall|i: int| 0 <= i < items.len() implies #[trigger] values_view(items)[i]
            == items[i]@ by {
            if i < items.len() - 1 {
                assert(items.drop_last()[i] == items[i]);
            }
        }
    }
}

pub proof fn lemma_members_view(members: Seq<(String, Value)>)
    ensures
        members_view(members).len() == members.len(),
        forall|i: int|
            0 <= i < members.len() ==> #[trigger] members_view(members)[i] == (
                members[i].0@,
                members[i].1@,
            ),
    decreases members.len(),
{
    if members.len() > 0 {
        lemma_members_view(members.drop_last());
        assert forall|i: int| 0 <= i < members.len() implies #[trigger] members_view(members)[i]
            == (members[i].0@, members[i].1@) by {
            if i < members.len() - 1 {
                assert(members.drop_last()[i] == members[i]);
            }
        }
    }
}

} // verus!
