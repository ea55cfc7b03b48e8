use vstd::prelude::*;
use vstd::string::StringExecFns;
use crate::messages::events::event::{
    broadcast, broadcasts, message_bytes, only_actions_changed, Action, EventContext, OnEvent,
};


use crate::protocol::msgpack::serialize::Serialize;
use crate::protocol::msgpack::value::{fields_view, lemma_fields_view, RefView, ValueRef};

verus! {

/// The editor plugin asks the server to restart; the other editors are told.
#[derive(Debug, Default)]
pub struct RestartEvent;

impl Serialize for RestartEvent {
    open spec fn spec_fields(&self) -> Seq<(Seq<char>, RefView)> {
        seq![("type"@, RefView::String("restart"@)), ("data"@, RefView::Nil)]
    }

    fn serialize_fields(&self) -> (r: Vec<(String, ValueRef)>) {
        let mut r: Vec<(String, ValueRef)> = Vec::new();
        r.push((String::from_str("type"), ValueRef::String(String::from_str("restart"))));
        r.push((String::from_str("data"), ValueRef::Nil));
        proof {
            lemma_fields_view(r@);
            assert(fields_view(r@) =~= self.spec_fields());
        }
        r
    }
}

impl RestartEvent {
    /// What reacting to the event does: it tells the editors and stops the server.
    /// `before` and `after` are the server's state around the reaction, `r` its
    /// outcome.
    pub open spec fn reacts<C>(self, before: EventContext<C>, after: EventContext<C>, r: crate::Result<()>) -> bool {
        &&& (only_actions_changed(before, after))
        &&& (match message_bytes(self) {
                Some(b) => r is Ok && after.actions@.len() == before.actions@.len() + 2
                    && after.actions@.subrange(0, before.actions@.len() as int) == before.actions@
                    && broadcasts(b, after.actions@[before.actions@.len() as int])
                    && after.actions@.last() is Shutdown,
                None => r is Err && after.actions == before.actions,
            })
    }
}

impl OnEvent for RestartEvent {
    /// Tells every editor that the server restarts, then stops it.
    fn on_event<C>(self, ctx: &mut EventContext<C>) -> (r: crate::Result<()>)
        ensures
            self.reacts(*old(ctx), *final(ctx), r),
    {
        match broadcast(&self, ctx) {
            Ok(()) => {},
            Err(e) => return Err(e),
        }
        ctx.actions.push(Action::Shutdown);
        assert(ctx.actions@.subrange(0, old(ctx).actions@.len() as int) =~= old(ctx).actions@);
        Ok(())
    }
}

} // verus!
