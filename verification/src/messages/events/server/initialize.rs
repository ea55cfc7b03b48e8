use vstd::prelude::*;
use vstd::string::StringExecFns;

use crate::protocol::msgpack::serialize::Serialize;
use crate::messages::events::event::{
    broadcast, broadcasts, only_actions_changed, wrote_out, EventContext, OnEvent,
};
use crate::protocol::msgpack::value::{fields_view, lemma_fields_view, RefView, ValueRef};
use crate::util::text::{decimal, to_decimal};

verus! {

/// Tells the editor plugins which process the server runs as.
#[derive(Debug, Default)]
pub struct InitializeEvent {
    /// The server's process id.
    pub pid: u32,
}

impl Serialize for InitializeEvent {
    open spec fn spec_fields(&self) -> Seq<(Seq<char>, RefView)> {
        seq![
            ("type"@, RefView::String("initialize"@)),
            ("data"@, RefView::String(decimal(self.pid as nat))),
        ]
    }

    fn serialize_fields(&self) -> (r: Vec<(String, ValueRef)>) {
        let mut r: Vec<(String, ValueRef)> = Vec::new();
        r.push((String::from_str("type"), ValueRef::String(String::from_str("initialize"))));
        r.push((String::from_str("data"), ValueRef::String(to_decimal(self.pid as u128))));
        proof {
            lemma_fields_view(r@);
            assert(fields_view(r@) =~= self.spec_fields());
        }
        r
    }
}

impl OnEvent for InitializeEvent {
    /// Tells every editor which process the server runs as.
    fn on_event<C>(self, ctx: &mut EventContext<C>) -> (r: crate::Result<()>)
        ensures
            only_actions_changed(*old(ctx), *final(ctx)),
            wrote_out(self, *old(ctx), *final(ctx), r, |b: Seq<u8>, a| broadcasts(b, a)),
    {
        broadcast(&self, ctx)
    }
}

} // verus!
