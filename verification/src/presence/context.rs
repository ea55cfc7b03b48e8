use vstd::prelude::*;

use crate::error::CordError;
use crate::protocol::msgpack::fields::{bool_field, bool_under, get_bool, get_str, str_field};
use crate::protocol::msgpack::value::{
    dict_get, dict_get_entry, entries_view, lemma_items_view, Value, ValueView,
};

verus! {

/// What the editor reports of the buffer being worked on.
#[derive(Debug)]
pub struct ActivityContext {
    pub filename: String,
    pub filetype: String,
    pub is_read_only: bool,
    /// Line and column of the cursor, when the editor sent both.
    pub cursor_position: Option<(u32, u32)>,
    pub problem_count: i32,
}

/// A value read as an unsigned integer: an unsigned one, or a signed one that
/// is not negative.
pub open spec fn uint_value(v: ValueView) -> Option<u64> {
    match v {
        ValueView::UInteger(n) => Some(n),
        ValueView::Integer(n) => if n >= 0 {
            Some(n as u64)
        } else {
            None
        },
        _ => None,
    }
}

/// A value read as a signed integer: a signed one, or an unsigned one that
/// fits in an `i64`.
pub open spec fn int_value(v: ValueView) -> Option<i64> {
    match v {
        ValueView::Integer(n) => Some(n),
        ValueView::UInteger(n) => if n <= i64::MAX {
            Some(n as i64)
        } else {
            None
        },
        _ => None,
    }
}

/// The signed integer under `key`, when it is there and reads as one.
pub open spec fn int_field(e: Seq<(Seq<char>, ValueView)>, key: Seq<char>) -> Option<i64> {
    match dict_get(e, key) {
        Some(v) => int_value(v),
        None => None,
    }
}

/// The cursor position under `cursor_position`: an array whose first two
/// items read as unsigned integers, each cut to 32 bits.
pub open spec fn cursor_field(e: Seq<(Seq<char>, ValueView)>) -> Option<(u32, u32)> {
    match dict_get(e, "cursor_position"@) {
        Some(ValueView::Array(items)) => if items.len() >= 2 {
            match (uint_value(items[0]), uint_value(items[1])) {
                (Some(line), Some(col)) => Some((line as u32, col as u32)),
                _ => None,
            }
        } else {
            None
        },
        _ => None,
    }
}

/// What reading a context from the entries of a map gives: the first field
/// of `filename`, `filetype`, `is_read_only` and `problem_count` that is
/// missing or of the wrong kind is named in the error.
pub open spec fn context_from(e: Seq<(Seq<char>, ValueView)>, r: Result<ActivityContext, CordError>) -> bool {
    match (str_field(e, "filename"@), str_field(e, "filetype"@), bool_field(e, "is_read_only"@), int_field(e, "problem_count"@)) {
        (Some(name), Some(ty), Some(ro), Some(pc)) => r matches Ok(c) && {
            &&& c.filename@ == name
            &&& c.filetype@ == ty
            &&& c.is_read_only == ro
            &&& c.cursor_position == cursor_field(e)
            &&& c.problem_count == pc as i32
        },
        (None, _, _, _) => r matches Err(CordError::MissingField(f)) && f@ == "filename"@,
        (Some(_), None, _, _) => r matches Err(CordError::MissingField(f)) && f@ == "filetype"@,
        (Some(_), Some(_), None, _) => r matches Err(CordError::MissingField(f)) && f@ == "is_read_only"@,
        (Some(_), Some(_), Some(_), None) => r matches Err(CordError::MissingField(f)) && f@ == "problem_count"@,
    }
}

/// A read context takes each field from the key of the same name: the
/// file's name and type are the strings stored under `filename` and
/// `filetype`, the read-only flag the boolean under `is_read_only`, the
/// problem count the number under `problem_count`; the cursor's line is the
/// first item of `cursor_position` and its column the second.
pub proof fn lemma_context_read_by_key(e: Seq<(Seq<char>, ValueView)>, c: ActivityContext)
    requires
        context_from(e, Ok(c)),
    ensures
        dict_get(e, "filename"@) == Some(ValueView::String(c.filename@)),
        dict_get(e, "filetype"@) == Some(ValueView::String(c.filetype@)),
        bool_under(e, "is_read_only"@, c.is_read_only),
        int_field(e, "problem_count"@) matches Some(n) && c.problem_count == n as i32,
        c.cursor_position matches Some(p) ==> (dict_get(e, "cursor_position"@) matches Some(
            ValueView::Array(items),
        ) && items.len() >= 2 && (uint_value(items[0]) matches Some(line) && p.0 == line as u32) && (
        uint_value(items[1]) matches Some(col) && p.1 == col as u32)),
{
}

/// The cursor position read from the entries of a map.
fn cursor_from_entries(e: &Vec<(String, Value)>) -> (r: Option<(u32, u32)>)
    ensures
        r == cursor_field(entries_view(e@)),
{
    match dict_get_entry(e, "cursor_position") {
        Some(v) => match v.as_array() {
            Some(items) => {
                proof {
                    lemma_items_view(items@);
                }
                if items.len() < 2 {
                    return None;
                }
                match (items[0].as_uinteger(), items[1].as_uinteger()) {
                    (Some(line), Some(col)) => Some((line as u32, col as u32)),
                    _ => None,
                }
            },
            None => None,
        },
        None => None,
    }
}

impl ActivityContext {
    /// Reads a context from a decoded message part: a map with the strings
    /// `filename` and `filetype`, the boolean `is_read_only`, the integer
    /// `problem_count` (cut to 32 bits) and, optionally, `cursor_position`.
    pub fn deserialize(input: Value) -> (r: Result<ActivityContext, CordError>)
        ensures
            match input@ {
                ValueView::Dict(e) => context_from(e, r),
                _ => r matches Err(CordError::Invalid(m)) && m@ == "Invalid activity context"@,
            },
    {
        let e = match input.as_map() {
            Some(e) => e,
            None => return Err(CordError::Invalid("Invalid activity context")),
        };
        let filename = match get_str(e, "filename") {
            Some(s) => s,
            None => return Err(CordError::MissingField("filename")),
        };
        let filetype = match get_str(e, "filetype") {
            Some(s) => s,
            None => return Err(CordError::MissingField("filetype")),
        };
        let is_read_only = match get_bool(e, "is_read_only") {
            Some(b) => b,
            None => return Err(CordError::MissingField("is_read_only")),
        };
        let cursor_position = cursor_from_entries(e);
        let problem_count = match dict_get_entry(e, "problem_count") {
            Some(v) => match v.as_integer() {
                Some(n) => n as i32,
                None => return Err(CordError::MissingField("problem_count")),
            },
            None => return Err(CordError::MissingField("problem_count")),
        };
        Ok(ActivityContext { filename, filetype, is_read_only, cursor_position, problem_count })
    }
}

} // verus!
