use vstd::prelude::*;
use vstd::string::StringExecFns;

use super::log::{log_data, log_data_value, LogEvent};
use crate::protocol::msgpack::serialize::Serialize;
use crate::messages::events::event::{
    only_actions_changed, write_to, writes_to, wrote_out, EventContext, OnEvent,
};
use crate::protocol::msgpack::value::{
    fields_view, lemma_fields_view, lemma_refs_view, refs_view, RefView, ValueRef,
};

verus! {

/// Log lines kept while no editor plugin was connected, sent in one go.
#[derive(Debug)]
pub struct BatchLogEvent {
    pub logs: Vec<LogEvent>,
}

/// The maps that carry log lines, in order.
pub open spec fn batch_data(logs: Seq<LogEvent>) -> Seq<RefView> {
    logs.map_values(|l: LogEvent| log_data(l.message@, l.level))
}

impl Serialize for BatchLogEvent {
    open spec fn spec_fields(&self) -> Seq<(Seq<char>, RefView)> {
        seq![
            ("type"@, RefView::String("log_batch"@)),
            ("data"@, RefView::Array(batch_data(self.logs@))),
        ]
    }

    fn serialize_fields(&self) -> (r: Vec<(String, ValueRef)>) {
        let mut logs: Vec<ValueRef> = Vec::new();
        let mut i: usize = 0;
        while i < self.logs.len()
            invariant
                i <= self.logs@.len(),
                logs@.len() == i,
                forall|j: int| 0 <= j < i ==> #[trigger] logs@[j]@ == log_data(
                    self.logs@[j].message@,
                    self.logs@[j].level,
                ),
            decreases self.logs@.len() - i,
        {
            let l = &self.logs[i];
            logs.push(log_data_value(&l.message, l.level));
            i = i + 1;
        }
        proof {
            lemma_refs_view(logs@);
            assert(refs_view(logs@) =~= batch_data(self.logs@));
        }
        let mut r: Vec<(String, ValueRef)> = Vec::new();
        r.push((String::from_str("type"), ValueRef::String(String::from_str("log_batch"))));
        r.push((String::from_str("data"), ValueRef::Array(logs)));
        proof {
            lemma_fields_view(r@);
            assert(fields_view(r@) =~= self.spec_fields());
        }
        r
    }
}

impl OnEvent for BatchLogEvent {
    /// Sends the kept log lines to the editor.
    fn on_event<C>(self, ctx: &mut EventContext<C>) -> (r: crate::Result<()>)
        ensures
            only_actions_changed(*old(ctx), *final(ctx)),
            wrote_out(self, *old(ctx), *final(ctx), r, |b: Seq<u8>, a| writes_to(old(ctx).client_id, b, a)),
    {
        let id = ctx.client_id;
        write_to(id, &self, ctx)
    }
}

} // verus!
