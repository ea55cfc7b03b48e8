use vstd::prelude::*;
use vstd::string::StringExecFns;

use crate::protocol::msgpack::serialize::Serialize;
use crate::messages::events::event::{
    broadcast, broadcasts, same_connection, wrote_out, EventContext, OnEvent,
};
use crate::protocol::msgpack::value::{fields_view, lemma_fields_view, RefView, ValueRef};

verus! {

/// Tells the editor plugins that Discord is ready.
#[derive(Debug, Default)]
pub struct ReadyEvent;

impl Serialize for ReadyEvent {
    open spec fn spec_fields(&self) -> Seq<(Seq<char>, RefView)> {
        seq![
            ("type"@, RefView::String("ready"@)),
        ]
    }

    fn serialize_fields(&self) -> (r: Vec<(String, ValueRef)>) {
        let mut r: Vec<(String, ValueRef)> = Vec::new();
        r.push((String::from_str("type"), ValueRef::String(String::from_str("ready"))));

        proof {
            lemma_fields_view(r@);
            assert(fields_view(r@) =~= self.spec_fields());
        }
        r
    }
}

impl OnEvent for ReadyEvent {
    /// Marks Discord ready; the first time, tells every editor.
    fn on_event<C>(self, ctx: &mut EventContext<C>) -> (r: crate::Result<()>)
        ensures
            final(ctx).discord_ready,
            same_connection(*old(ctx), EventContext { discord_ready: old(ctx).discord_ready, ..*final(ctx) }),
            final(ctx).sessions == old(ctx).sessions,
            final(ctx).last_activity == old(ctx).last_activity,
            final(ctx).shared_timestamp == old(ctx).shared_timestamp,
            old(ctx).discord_ready ==> r is Ok && final(ctx).actions == old(ctx).actions,
            !old(ctx).discord_ready ==> wrote_out(self, *old(ctx), *final(ctx), r, |b: Seq<u8>, a| broadcasts(b, a)),
    {
        if !ctx.discord_ready {
            ctx.discord_ready = true;
            broadcast(&self, ctx)
        } else {
            Ok(())
        }
    }
}

} // verus!
