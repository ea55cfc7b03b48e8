pub mod clear_activity;
pub mod connect;
pub mod disconnect;
pub mod initialize;
pub mod reconnect;
pub mod reset_timestamp;
pub mod restart;
pub mod set_timestamp;
pub mod shutdown;
pub mod update_activity;
pub mod update_workspace;

use vstd::prelude::*;
use vstd::string::StringExecFns;

pub use clear_activity::ClearActivityEvent;
pub use connect::ConnectEvent;
pub use disconnect::DisconnectEvent;
pub use initialize::InitializeEvent;
pub use restart::RestartEvent;
pub use shutdown::ShutdownEvent;
pub use update_activity::UpdateActivityEvent;

use crate::error::CordError;
use crate::protocol::msgpack::deserialize::{spec_deserialize, Decoded};
use crate::protocol::msgpack::fields::str_field;
use crate::protocol::msgpack::value::{dict_get, dict_get_entry, ValueView};
use crate::protocol::msgpack::MsgPack;
use crate::types::config::{plugin_config_result, PluginConfig};
use crate::util::text::str_eq;
use update_activity::update_activity_result;
use crate::messages::events::event::{EventContext, OnEvent};

verus! {

/// A message of the editor plugin.
#[derive(Debug)]
pub enum ClientEvent {
    Connect(ConnectEvent),
    Initialize(InitializeEvent),
    UpdateActivity(UpdateActivityEvent),
    ClearActivity(ClearActivityEvent),
    Disconnect(DisconnectEvent),
    Shutdown(ShutdownEvent),
    Restart(RestartEvent),
}

/// What reading the event named `ty` with the data `data` gives.
pub open spec fn event_with_data(
    ty: Seq<char>,
    data: Option<ValueView>,
    r: crate::Result<ClientEvent>,
) -> bool {
    match data {
        None => r matches Err(CordError::MissingField(f)) && f@ == "data"@,
        Some(d) => if ty == "initialize"@ {
            match r {
                Ok(ClientEvent::Initialize(e)) => plugin_config_result(
                    d,
                    Ok::<PluginConfig, CordError>(e.config),
                ),
                Ok(_) => false,
                Err(err) => plugin_config_result(d, Err::<PluginConfig, CordError>(err)),
            }
        } else if ty == "update_activity"@ {
            match r {
                Ok(ClientEvent::UpdateActivity(e)) => update_activity_result(
                    d,
                    Ok::<UpdateActivityEvent, CordError>(e),
                ),
                Ok(_) => false,
                Err(err) => update_activity_result(d, Err::<UpdateActivityEvent, CordError>(err)),
            }
        } else {
            r matches Ok(ClientEvent::ClearActivity(e)) && e.force == match d {
                ValueView::Boolean(b) => b,
                _ => false,
            }
        },
    }
}

/// What reading a message of the editor plugin from its decoded value gives.
pub open spec fn client_event_result(v: ValueView, r: crate::Result<ClientEvent>) -> bool {
    match v {
        ValueView::Dict(e) => match str_field(e, "type"@) {
            None => r matches Err(CordError::Invalid(m)) && m@ == "Missing 'type' field"@,
            Some(ty) => if ty == "connect"@ {
                r matches Ok(ClientEvent::Connect(_))
            } else if ty == "disconnect"@ {
                r matches Ok(ClientEvent::Disconnect(_))
            } else if ty == "shutdown"@ {
                r matches Ok(ClientEvent::Shutdown(_))
            } else if ty == "restart"@ {
                r matches Ok(ClientEvent::Restart(_))
            } else if ty == "initialize"@ || ty == "update_activity"@ || ty == "clear_activity"@ {
                event_with_data(ty, dict_get(e, "data"@), r)
            } else {
                r matches Err(CordError::UnknownMessageType(t)) && t@ == ty
            },
        },
        _ => r matches Err(CordError::Invalid(m)) && m@ == "Invalid message"@,
    }
}

impl ClientEvent {
    /// Reads a message of the editor plugin: a MessagePack map with the
    /// event's name under `type` and, for `initialize`, `update_activity`
    /// and `clear_activity`, its data under `data`.
    pub fn deserialize(json: &[u8]) -> (r: crate::Result<ClientEvent>)
        requires
            !(spec_deserialize(json@) is Aborted),
        ensures
            match spec_deserialize(json@) {
                Decoded::Done(v, _) => client_event_result(v, r),
                Decoded::Failed(e) => r matches Err(CordError::Protocol(e2)) && e2 == e,
                Decoded::Aborted => false,
            },
    {
        let value = match MsgPack::deserialize(json) {
            Ok(v) => v,
            Err(e) => return Err(e),
        };
        let map = match value.as_map() {
            Some(m) => m,
            None => return Err(CordError::Invalid("Invalid message")),
        };
        let ty = match dict_get_entry(map, "type") {
            Some(t) => match t.as_str() {
                Some(s) => s,
                None => return Err(CordError::Invalid("Missing 'type' field")),
            },
            None => return Err(CordError::Invalid("Missing 'type' field")),
        };
        if str_eq(ty, "connect") {
            Ok(ClientEvent::Connect(ConnectEvent))
        } else if str_eq(ty, "disconnect") {
            Ok(ClientEvent::Disconnect(DisconnectEvent))
        } else if str_eq(ty, "shutdown") {
            Ok(ClientEvent::Shutdown(ShutdownEvent))
        } else if str_eq(ty, "restart") {
            Ok(ClientEvent::Restart(RestartEvent))
        } else if str_eq(ty, "initialize") {
            let data = match dict_get_entry(map, "data") {
                Some(d) => d,
                None => return Err(CordError::MissingField("data")),
            };
            match PluginConfig::from_value(data) {
                Ok(c) => Ok(ClientEvent::Initialize(InitializeEvent::new(c))),
                Err(e) => Err(e),
            }
        } else if str_eq(ty, "update_activity") {
            let data = match dict_get_entry(map, "data") {
                Some(d) => d,
                None => return Err(CordError::MissingField("data")),
            };
            match UpdateActivityEvent::from_value(data) {
                Ok(e) => Ok(ClientEvent::UpdateActivity(e)),
                Err(e) => Err(e),
            }
        } else if str_eq(ty, "clear_activity") {
            let data = match dict_get_entry(map, "data") {
                Some(d) => d,
                None => return Err(CordError::MissingField("data")),
            };
            match ClearActivityEvent::from_value(data) {
                Ok(e) => Ok(ClientEvent::ClearActivity(e)),
                Err(e) => Err(e),
            }
        } else {
            Err(CordError::UnknownMessageType(String::from_str(ty)))
        }
    }
}

impl ClientEvent {
    /// What reacting to the event does: what the event it carries does.
    pub open spec fn reacts<C>(self, before: EventContext<C>, after: EventContext<C>, r: crate::Result<()>) -> bool {
        match self {
            ClientEvent::Connect(e) => e.reacts(before, after, r),
            ClientEvent::Initialize(e) => e.reacts(before, after, r),
            ClientEvent::UpdateActivity(e) => e.reacts(before, after, r),
            ClientEvent::ClearActivity(e) => e.reacts(before, after, r),
            ClientEvent::Disconnect(e) => e.reacts(before, after, r),
            ClientEvent::Shutdown(e) => e.reacts(before, after, r),
            ClientEvent::Restart(e) => e.reacts(before, after, r),
        }
    }
}

impl OnEvent for ClientEvent {
    fn on_event<C>(self, ctx: &mut EventContext<C>) -> (r: crate::Result<()>)
        ensures
            self.reacts(*old(ctx), *final(ctx), r),
    {
        match self {
            ClientEvent::Initialize(e) => e.on_event(ctx),
            ClientEvent::Connect(e) => e.on_event(ctx),
            ClientEvent::Disconnect(e) => e.on_event(ctx),
            ClientEvent::UpdateActivity(e) => e.on_event(ctx),
            ClientEvent::ClearActivity(e) => e.on_event(ctx),
            ClientEvent::Shutdown(e) => e.on_event(ctx),
            ClientEvent::Restart(e) => e.on_event(ctx),
        }
    }
}

} // verus!
