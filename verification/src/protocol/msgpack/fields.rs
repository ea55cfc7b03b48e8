use vstd::prelude::*;

use vstd::string::StringExecFns;

use super::value::{dict_get, dict_get_entry, entries_view, Value, ValueView};

verus! {

/// The text under `key`, when it is there and is a string.
pub open spec fn str_field(entries: Seq<(Seq<char>, ValueView)>, key: Seq<char>) -> Option<
    Seq<char>,
> {
    match dict_get(entries, key) {
        Some(ValueView::String(s)) => Some(s),
        _ => None,
    }
}

/// The unsigned number under `key`, when it is there and is a
/// non-negative integer.
pub open spec fn uint_field(entries: Seq<(Seq<char>, ValueView)>, key: Seq<char>) -> Option<u64> {
    match dict_get(entries, key) {
        Some(ValueView::UInteger(n)) => Some(n),
        Some(ValueView::Integer(n)) => if n >= 0 {
            Some(n as u64)
        } else {
            None
        },
        _ => None,
    }
}

/// The boolean under `key`, when it is there and is a boolean.
pub open spec fn bool_field(entries: Seq<(Seq<char>, ValueView)>, key: Seq<char>) -> Option<bool> {
    match dict_get(entries, key) {
        Some(ValueView::Boolean(b)) => Some(b),
        _ => None,
    }
}

/// The view of an optional text.
pub open spec fn opt_str(o: Option<String>) -> Option<Seq<char>> {
    match o {
        Some(s) => Some(s@),
        None => None,
    }
}

/// The text under `key`, copied out, when it is there and is a string.
pub fn get_str(entries: &Vec<(String, Value)>, key: &str) -> (r: Option<String>)
    ensures
        opt_str(r) == str_field(entries_view(entries@), key@),
{
    match dict_get_entry(entries, key) {
        Some(v) => match v.as_str() {
            Some(s) => Some(String::from_str(s)),
            None => None,
        },
        None => None,
    }
}

/// The unsigned number under `key`, when it is there and is one.
pub fn get_uint(entries: &Vec<(String, Value)>, key: &str) -> (r: Option<u64>)
    ensures
        r == uint_field(entries_view(entries@), key@),
{
    match dict_get_entry(entries, key) {
        Some(v) => v.as_uinteger(),
        None => None,
    }
}

/// The boolean under `key`, when it is there and is one.
pub fn get_bool(entries: &Vec<(String, Value)>, key: &str) -> (r: Option<bool>)
    ensures
        r == bool_field(entries_view(entries@), key@),
{
    match dict_get_entry(entries, key) {
        Some(v) => v.as_bool(),
        None => None,
    }
}

/// What reading the text of `key` must give: the string stored under
/// `key` when one is, and nothing when the key is missing or holds anything
/// else.
pub open spec fn text_under(e: Seq<(Seq<char>, ValueView)>, key: Seq<char>, field: Option<Seq<char>>) -> bool {
    match dict_get(e, key) {
        Some(ValueView::String(s)) => field == Some(s),
        _ => field is None,
    }
}

/// `key` holds the boolean `b`.
pub open spec fn bool_under(e: Seq<(Seq<char>, ValueView)>, key: Seq<char>, b: bool) -> bool {
    dict_get(e, key) == Some(ValueView::Boolean(b))
}

/// `key` holds the whole number `n`, stored unsigned or signed.
pub open spec fn uint_under(e: Seq<(Seq<char>, ValueView)>, key: Seq<char>, n: u64) -> bool {
    dict_get(e, key) == Some(ValueView::UInteger(n)) || (n <= i64::MAX && dict_get(e, key) == Some(
        ValueView::Integer(n as i64),
    ))
}

} // verus!
