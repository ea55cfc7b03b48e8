use vstd::prelude::*;
use vstd::string::StringExecFns;

use crate::protocol::msgpack::serialize::Serialize;
use crate::messages::events::event::{
    broadcast, broadcasts, only_actions_changed, wrote_out, EventContext, OnEvent,
};
use crate::protocol::msgpack::value::{fields_view, lemma_fields_view, RefView, ValueRef};

verus! {

/// Tells the editor plugin how the connection to Discord stands.
#[derive(Debug)]
pub struct StatusUpdateEvent {
    pub status: Status,
}

/// How the connection to Discord stands.
#[derive(Debug, Clone, Copy, PartialEq, Eq, Structural)]
pub enum Status {
    /// The client is disconnected from Discord.
    Disconnected,
    /// The client is connecting to Discord.
    Connecting,
    /// The client is connected to Discord.
    Connected,
    /// The client has handshaken with Discord.
    Ready,
}

impl Status {
    /// The name of a status, as the editor plugin reads it.
    pub open spec fn spec_name(self) -> Seq<char> {
        match self {
            Status::Disconnected => "disconnected"@,
            Status::Connecting => "connecting"@,
            Status::Connected => "connected"@,
            Status::Ready => "ready"@,
        }
    }

    /// The name of this status.
    pub fn name(&self) -> (r: &'static str)
        ensures
            r@ == self.spec_name(),
    {
        match self {
            Status::Disconnected => "disconnected",
            Status::Connecting => "connecting",
            Status::Connected => "connected",
            Status::Ready => "ready",
        }
    }
}

impl StatusUpdateEvent {
    pub fn new(status: Status) -> (r: StatusUpdateEvent)
        ensures
            r.status == status,
    {
        StatusUpdateEvent { status }
    }

    pub fn disconnected() -> (r: StatusUpdateEvent)
        ensures
            r.status == Status::Disconnected,
    {
        Self::new(Status::Disconnected)
    }

    pub fn connecting() -> (r: StatusUpdateEvent)
        ensures
            r.status == Status::Connecting,
    {
        Self::new(Status::Connecting)
    }

    pub fn connected() -> (r: StatusUpdateEvent)
        ensures
            r.status == Status::Connected,
    {
        Self::new(Status::Connected)
    }

    pub fn ready() -> (r: StatusUpdateEvent)
        ensures
            r.status == Status::Ready,
    {
        Self::new(Status::Ready)
    }
}

impl Serialize for StatusUpdateEvent {
    open spec fn spec_fields(&self) -> Seq<(Seq<char>, RefView)> {
        seq![
            ("type"@, RefView::String("status_update"@)),
            ("data"@, RefView::Dict(seq![("status"@, RefView::String(self.status.spec_name()))])),
        ]
    }

    fn serialize_fields(&self) -> (r: Vec<(String, ValueRef)>) {
        let mut data: Vec<(String, ValueRef)> = Vec::new();
        data.push((String::from_str("status"), ValueRef::String(String::from_str(self.status.name()))));
        let mut r: Vec<(String, ValueRef)> = Vec::new();
        r.push((String::from_str("type"), ValueRef::String(String::from_str("status_update"))));
        r.push((String::from_str("data"), ValueRef::Dict(data)));
        proof {
            lemma_fields_view(data@);
            assert(fields_view(data@) =~= seq![("status"@, RefView::String(self.status.spec_name()))]);
            lemma_fields_view(r@);
            assert(fields_view(r@) =~= self.spec_fields());
        }
        r
    }
}

impl StatusUpdateEvent {
    /// What reacting to the event does: it tells every editor how the connection
    /// stands. `before` and `after` are the server's state around the reaction, `r`
    /// its outcome.
    pub open spec fn reacts<C>(self, before: EventContext<C>, after: EventContext<C>, r: crate::Result<()>) -> bool {
        &&& (only_actions_changed(before, after))
        &&& (wrote_out(self, before, after, r, |b: Seq<u8>, a| broadcasts(b, a)))
    }
}

impl OnEvent for StatusUpdateEvent {
    /// Tells every editor how the connection stands.
    fn on_event<C>(self, ctx: &mut EventContext<C>) -> (r: crate::Result<()>)
        ensures
            self.reacts(*old(ctx), *final(ctx), r),
    {
        broadcast(&self, ctx)
    }
}

} // verus!
