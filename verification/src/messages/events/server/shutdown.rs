use vstd::prelude::*;
use vstd::string::StringExecFns;

use crate::protocol::msgpack::serialize::Serialize;
use crate::messages::events::event::{
    broadcast, broadcasts, message_bytes, one_more, only_actions_changed, Action, EventContext,
    OnEvent,
};
use crate::protocol::msgpack::value::{fields_view, lemma_fields_view, RefView, ValueRef};

verus! {

/// Tells the editor plugins that the server shuts down.
#[derive(Debug, Default)]
pub struct ShutdownEvent;

impl Serialize for ShutdownEvent {
    open spec fn spec_fields(&self) -> Seq<(Seq<char>, RefView)> {
        seq![
            ("type"@, RefView::String("shutdown"@)),
        ]
    }

    fn serialize_fields(&self) -> (r: Vec<(String, ValueRef)>) {
        let mut r: Vec<(String, ValueRef)> = Vec::new();
        r.push((String::from_str("type"), ValueRef::String(String::from_str("shutdown"))));

        proof {
            lemma_fields_view(r@);
            assert(fields_view(r@) =~= self.spec_fields());
        }
        r
    }
}

impl OnEvent for ShutdownEvent {
    /// Tells every editor that the server shuts down, then stops it.
    fn on_event<C>(self, ctx: &mut EventContext<C>) -> (r: crate::Result<()>)
        ensures
            only_actions_changed(*old(ctx), *final(ctx)),
            match message_bytes(self) {
                Some(b) => r is Ok && final(ctx).actions@.len() == old(ctx).actions@.len() + 2
                    && final(ctx).actions@.subrange(0, old(ctx).actions@.len() as int) == old(ctx).actions@
                    && broadcasts(b, final(ctx).actions@[old(ctx).actions@.len() as int])
                    && final(ctx).actions@.last() is Shutdown,
                None => r is Err && final(ctx).actions == old(ctx).actions,
            },
    {
        match broadcast(&self, ctx) {
            Ok(()) => {},
            Err(e) => return Err(e),
        }
        let ghost mid = ctx.actions@;
        ctx.actions.push(Action::Shutdown);
        assert(ctx.actions@.subrange(0, old(ctx).actions@.len() as int) =~= old(ctx).actions@);
        Ok(())
    }
}

} // verus!
