use vstd::prelude::*;
use vstd::string::StringExecFns;

use crate::protocol::msgpack::serialize::Serialize;
use crate::messages::events::event::{
    broadcast, broadcasts, only_actions_changed, write_to, writes_to, wrote_out, EventContext,
    OnEvent,
};
use crate::protocol::msgpack::value::{fields_view, lemma_fields_view, RefView, ValueRef};
use crate::util::logger::LogLevel;

verus! {

/// A log line for the editor plugin.
#[derive(Debug)]
pub struct LogEvent {
    pub message: String,
    pub level: LogLevel,
}

impl LogEvent {
    pub fn new(message: String, level: LogLevel) -> (r: LogEvent)
        ensures
            r.message@ == message@,
            r.level == level,
    {
        LogEvent { message, level }
    }
}

/// The map that carries a log line: its text, then its level's code.
pub open spec fn log_data(message: Seq<char>, level: LogLevel) -> RefView {
    RefView::Dict(
        seq![
            ("message"@, RefView::String(message)),
            ("level"@, RefView::UInteger(level.spec_code() as u64)),
        ],
    )
}

/// The map that carries a log line.
pub fn log_data_value(message: &String, level: LogLevel) -> (r: ValueRef)
    ensures
        r@ == log_data(message@, level),
{
    let mut entries: Vec<(String, ValueRef)> = Vec::new();
    entries.push((String::from_str("message"), ValueRef::String(message.clone())));
    entries.push((String::from_str("level"), ValueRef::UInteger(level.code() as u64)));
    proof {
        lemma_fields_view(entries@);
        assert(fields_view(entries@) =~= seq![
            ("message"@, RefView::String(message@)),
            ("level"@, RefView::UInteger(level.spec_code() as u64)),
        ]);
    }
    ValueRef::Dict(entries)
}

impl Serialize for LogEvent {
    open spec fn spec_fields(&self) -> Seq<(Seq<char>, RefView)> {
        seq![("type"@, RefView::String("log"@)), ("data"@, log_data(self.message@, self.level))]
    }

    fn serialize_fields(&self) -> (r: Vec<(String, ValueRef)>) {
        let mut r: Vec<(String, ValueRef)> = Vec::new();
        r.push((String::from_str("type"), ValueRef::String(String::from_str("log"))));
        r.push((String::from_str("data"), log_data_value(&self.message, self.level)));
        proof {
            lemma_fields_view(r@);
            assert(fields_view(r@) =~= self.spec_fields());
        }
        r
    }
}

impl LogEvent {
    /// What reacting to the event does: it sends the log line to its editor, or to
    /// all of them. `before` and `after` are the server's state around the
    /// reaction, `r` its outcome.
    pub open spec fn reacts<C>(self, before: EventContext<C>, after: EventContext<C>, r: crate::Result<()>) -> bool {
        &&& (only_actions_changed(before, after))
        &&& (before.client_id == 0 ==> wrote_out(self, before, after, r, |b: Seq<u8>, a| broadcasts(b, a)))
        &&& (before.client_id != 0 ==> wrote_out(self, before, after, r, |b: Seq<u8>, a| writes_to(before.client_id, b, a)))
    }
}

impl OnEvent for LogEvent {
    /// Sends the log line to its editor, or to every editor when it
    /// concerns none.
    fn on_event<C>(self, ctx: &mut EventContext<C>) -> (r: crate::Result<()>)
        ensures
            self.reacts(*old(ctx), *final(ctx), r),
    {
        if ctx.client_id == 0 {
            broadcast(&self, ctx)
        } else {
            let id = ctx.client_id;
            write_to(id, &self, ctx)
        }
    }
}

} // verus!
