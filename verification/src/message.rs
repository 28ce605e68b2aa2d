//! The messages that travel between this library, the command stream and the
//! event store, as plain values.

use vstd::prelude::*;

verus! {

/// A typed blob: the envelope of every event, command payload and response.
#[derive(Debug, PartialEq, Eq)]
pub struct SerializedObject {
    /// The dispatch key for handler registries.
    pub object_type: String,
    pub revision: String,
    pub data: Vec<u8>,
}

/// What a [`SerializedObject`] holds.
pub struct SerializedObjectView {
    pub object_type: Seq<char>,
    pub revision: Seq<char>,
    pub data: Seq<u8>,
}

impl View for SerializedObject {
    type V = SerializedObjectView;

    open spec fn view(&self) -> SerializedObjectView {
        SerializedObjectView {
            object_type: self.object_type@,
            revision: self.revision@,
            data: self.data@,
        }
    }
}

impl DeepView for SerializedObject {
    type V = SerializedObjectView;

    open spec fn deep_view(&self) -> SerializedObjectView {
        self@
    }
}

impl Clone for SerializedObject {
    fn clone(&self) -> (r: Self)
        ensures
            r@ == self@,
    {
        SerializedObject {
            object_type: self.object_type.clone(),
            revision: self.revision.clone(),
            data: self.data.clone(),
        }
    }
}

/// A request to change an aggregate.
#[derive(Debug, PartialEq, Eq)]
pub struct Command {
    /// Selects the aggregate and, within it, the handler.
    pub name: String,
    /// Unique per request; the response carries it back.
    pub message_identifier: String,
    pub payload: Option<SerializedObject>,
}

/// What a [`Command`] holds.
pub struct CommandView {
    pub name: Seq<char>,
    pub message_identifier: Seq<char>,
    pub payload: Option<SerializedObjectView>,
}

impl View for Command {
    type V = CommandView;

    open spec fn view(&self) -> CommandView {
        CommandView {
            name: self.name@,
            message_identifier: self.message_identifier@,
            payload: self.payload.deep_view(),
        }
    }
}

/// One record of an aggregate's history.
#[derive(Debug, PartialEq, Eq)]
pub struct Event {
    pub message_identifier: String,
    /// Milliseconds since the Unix epoch.
    pub timestamp: i64,
    pub aggregate_identifier: String,
    pub aggregate_sequence_number: i64,
    pub aggregate_type: String,
    pub payload: Option<SerializedObject>,
    pub meta_data: Vec<(String, String)>,
    pub snapshot: bool,
}

/// What an [`Event`] holds.
pub struct EventView {
    pub message_identifier: Seq<char>,
    pub timestamp: i64,
    pub aggregate_identifier: Seq<char>,
    pub aggregate_sequence_number: i64,
    pub aggregate_type: Seq<char>,
    pub payload: Option<SerializedObjectView>,
    pub meta_data: Seq<(Seq<char>, Seq<char>)>,
    pub snapshot: bool,
}

impl View for Event {
    type V = EventView;

    open spec fn view(&self) -> EventView {
        EventView {
            message_identifier: self.message_identifier@,
            timestamp: self.timestamp,
            aggregate_identifier: self.aggregate_identifier@,
            aggregate_sequence_number: self.aggregate_sequence_number,
            aggregate_type: self.aggregate_type@,
            payload: self.payload.deep_view(),
            meta_data: self.meta_data.deep_view(),
            snapshot: self.snapshot,
        }
    }
}

impl DeepView for Event {
    type V = EventView;

    open spec fn deep_view(&self) -> EventView {
        self@
    }
}

/// A copy of an optional blob.
pub fn clone_payload(payload: &Option<SerializedObject>) -> (r: Option<SerializedObject>)
    ensures
        r.deep_view() == payload.deep_view(),
{
    match payload {
        Some(p) => Some(p.clone()),
        None => None,
    }
}

} // verus!
