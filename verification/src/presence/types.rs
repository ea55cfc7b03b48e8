use vstd::prelude::*;

use crate::error::CordError;
use crate::protocol::json::serialize::{push_member, Serialize};
use crate::protocol::json::value::{fields_view, RefView, ValueRef};
use crate::protocol::msgpack::fields::{get_str, str_field};
use crate::protocol::msgpack::value::{Value, ValueView};

verus! {

/// A process and the activity to show for it.
pub struct Packet<'a> {
    pub pid: u32,
    pub activity: Option<&'a Activity>,
}

impl<'a> Packet<'a> {
    pub fn new(pid: u32, activity: Option<&'a Activity>) -> (r: Packet<'a>)
        ensures
            r.pid == pid,
            r.activity == activity,
    {
        Packet { pid, activity }
    }
}

/// An activity with its images and texts named one by one.
#[derive(Debug, Clone)]
pub struct Activity {
    pub details: Option<String>,
    pub state: Option<String>,
    pub large_image: Option<String>,
    pub large_text: Option<String>,
    pub small_image: Option<String>,
    pub small_text: Option<String>,
    pub buttons: Option<Vec<ActivityButton>>,
    pub timestamp: Option<u128>,
}

/// A button with a label and the link it opens.
#[derive(Debug, Clone)]
pub struct ActivityButton {
    pub label: String,
    pub url: String,
}

impl Serialize for ActivityButton {
    open spec fn spec_fields(&self) -> Seq<(Seq<char>, RefView)> {
        seq![("label"@, RefView::String(self.label@)), ("url"@, RefView::String(self.url@))]
    }

    fn serialize_fields(&self) -> (r: Vec<(String, ValueRef)>) {
        let mut r: Vec<(String, ValueRef)> = Vec::new();
        push_member(&mut r, "label", ValueRef::String(self.label.clone()));
        push_member(&mut r, "url", ValueRef::String(self.url.clone()));
        assert(fields_view(r@) =~= self.spec_fields());
        r
    }
}

impl ActivityButton {
    /// Reads a button from a decoded message part: a map with the strings
    /// `label` and `url`.
    pub fn deserialize(input: Value) -> (r: Result<ActivityButton, CordError>)
        ensures
            match input@ {
                ValueView::Dict(e) => match (str_field(e, "label"@), str_field(e, "url"@)) {
                    (Some(l), Some(u)) => r matches Ok(b) && b.label@ == l && b.url@ == u,
                    (None, _) => r matches Err(CordError::MissingField(f)) && f@ == "label"@,
                    (Some(_), None) => r matches Err(CordError::MissingField(f)) && f@ == "url"@,
                },
                _ => r matches Err(CordError::Invalid(m)) && m@ == "Invalid activity button"@,
            },
    {
        match input.as_map() {
            Some(e) => {
                let label = match get_str(e, "label") {
                    Some(s) => s,
                    None => return Err(CordError::MissingField("label")),
                };
                let url = match get_str(e, "url") {
                    Some(s) => s,
                    None => return Err(CordError::MissingField("url")),
                };
                Ok(ActivityButton { label, url })
            },
            None => Err(CordError::Invalid("Invalid activity button")),
        }
    }
}

} // verus!
