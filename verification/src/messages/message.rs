use vstd::prelude::*;

use super::events::event::Event;

verus! {

/// An event, and the client it concerns (0 for all of them).
#[derive(Debug)]
pub struct Message {
    pub client_id: u32,
    pub event: Event,
}

impl Message {
    pub fn new(client_id: u32, message: Event) -> (r: Message)
        ensures
            r.client_id == client_id,
            r.event == message,
    {
        Message { client_id, event: message }
    }
}

} // verus!
