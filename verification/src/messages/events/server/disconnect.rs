use vstd::prelude::*;
use vstd::string::StringExecFns;

use crate::protocol::msgpack::serialize::Serialize;
use crate::messages::events::event::{
    broadcast, broadcasts, only_actions_changed, wrote_out, EventContext, OnEvent,
};
use crate::protocol::msgpack::value::{fields_view, lemma_fields_view, RefView, ValueRef};

verus! {

/// Tells the editor plugins that the server is going away.
#[derive(Debug, Default)]
pub struct DisconnectEvent;

impl Serialize for DisconnectEvent {
    open spec fn spec_fields(&self) -> Seq<(Seq<char>, RefView)> {
        seq![
            ("type"@, RefView::String("disconnect"@)),
            ("data"@, RefView::Nil),
        ]
    }

    fn serialize_fields(&self) -> (r: Vec<(String, ValueRef)>) {
        let mut r: Vec<(String, ValueRef)> = Vec::new();
        r.push((String::from_str("type"), ValueRef::String(String::from_str("disconnect"))));
        r.push((String::from_str("data"), ValueRef::Nil));
        proof {
            lemma_fields_view(r@);
            assert(fields_view(r@) =~= self.spec_fields());
        }
        r
    }
}

impl OnEvent for DisconnectEvent {
    /// Tells every editor that the server is going away.
    fn on_event<C>(self, ctx: &mut EventContext<C>) -> (r: crate::Result<()>)
        ensures
            only_actions_changed(*old(ctx), *final(ctx)),
            wrote_out(self, *old(ctx), *final(ctx), r, |b: Seq<u8>, a| broadcasts(b, a)),
    {
        broadcast(&self, ctx)
    }
}

} // verus!
