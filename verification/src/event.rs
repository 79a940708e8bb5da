//! Events as they travel through the analysers.
use vstd::prelude::*;

use crate::json;

verus! {

/// One observation: where it comes from, the process it is about, and its data.
#[derive(Debug)]
pub struct Event {
    /// Milliseconds since the Unix epoch.
    pub timestamp: u64,
    pub source: String,
    pub pid: u32,
    pub comm: String,
    pub data: serde_json::Value,
}

/// An event by what it holds.
pub struct EventView {
    pub timestamp: u64,
    pub source: Seq<char>,
    pub pid: u32,
    pub comm: Seq<char>,
    pub data: json::Json,
}

impl View for Event {
    type V = EventView;

    open spec fn view(&self) -> EventView {
        EventView {
            timestamp: self.timestamp,
            source: self.source@,
            pid: self.pid,
            comm: self.comm@,
            data: json::content(self.data),
        }
    }
}

/// The view of an event leaves nothing of it out.
pub proof fn law_view_holds_everything(event: Event)
    ensures
        event@.timestamp == event.timestamp,
        event@.source == event.source@,
        event@.pid == event.pid,
        event@.comm == event.comm@,
        event@.data == json::content(event.data),
{
}

} // verus!
