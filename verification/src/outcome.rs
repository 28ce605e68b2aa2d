//! What a command handler hands back: events to append and a response.

use crate::error::{CommandError, CommandErrorView};
use crate::message::{clone_payload, SerializedObject, SerializedObjectView};
use vstd::prelude::*;
use vstd::string::*;

verus! {

/// The blob of type `object_type` that wraps `data`, with an empty revision.
pub open spec fn wrapped(object_type: Seq<char>, data: Seq<u8>) -> SerializedObjectView {
    SerializedObjectView { object_type, revision: Seq::<char>::empty(), data }
}

/// Wraps encoded bytes as a blob of type `object_type`.
pub fn wrap(object_type: &str, data: Vec<u8>) -> (r: SerializedObject)
    ensures
        r@ == wrapped(object_type@, data@),
{
    SerializedObject {
        object_type: String::from_str(object_type),
        revision: String::new(),
        data,
    }
}

/// Events in their envelopes, with an optional response: what goes back up
/// the command stream.
#[derive(Debug, PartialEq, Eq)]
pub struct EmitEventsAndResponse {
    pub events: Vec<SerializedObject>,
    pub response: Option<SerializedObject>,
}

/// What an [`EmitEventsAndResponse`] holds.
pub struct EmittedView {
    pub events: Seq<SerializedObjectView>,
    pub response: Option<SerializedObjectView>,
}

impl View for EmitEventsAndResponse {
    type V = EmittedView;

    open spec fn view(&self) -> EmittedView {
        EmittedView { events: self.events.deep_view(), response: self.response.deep_view() }
    }
}

impl DeepView for EmitEventsAndResponse {
    type V = EmittedView;

    open spec fn deep_view(&self) -> EmittedView {
        self@
    }
}

/// The outcome of a command handler: the events to append, each as its type
/// and its encoded body, in the order in which they happened, and an
/// optional response.
#[derive(Debug, PartialEq, Eq)]
pub struct EmitApplicableEventsAndResponse {
    pub events: Vec<(String, Vec<u8>)>,
    pub response: Option<SerializedObject>,
}

/// Each event of a handler's outcome as its type and its body.
pub open spec fn applicable_events(events: Seq<(String, Vec<u8>)>) -> Seq<(Seq<char>, Seq<u8>)> {
    Seq::new(events.len(), |i: int| (events[i].0@, events[i].1@))
}

/// What an [`EmitApplicableEventsAndResponse`] holds.
pub struct OutcomeView {
    pub events: Seq<(Seq<char>, Seq<u8>)>,
    pub response: Option<SerializedObjectView>,
}

impl View for EmitApplicableEventsAndResponse {
    type V = OutcomeView;

    open spec fn view(&self) -> OutcomeView {
        OutcomeView {
            events: applicable_events(self.events@),
            response: self.response.deep_view(),
        }
    }
}

impl DeepView for EmitApplicableEventsAndResponse {
    type V = OutcomeView;

    open spec fn deep_view(&self) -> OutcomeView {
        self@
    }
}

/// An outcome with no events and no response.
pub fn emit_events() -> (r: EmitEventsAndResponse)
    ensures
        r@.events == Seq::<SerializedObjectView>::empty(),
        r@.response is None,
{
    let r = EmitEventsAndResponse { events: Vec::new(), response: None };
    assert(r@.events =~= Seq::<SerializedObjectView>::empty());
    r
}

/// An outcome with no events whose response is the encoded value `data` of
/// type `object_type`.
pub fn emit_events_and_response(object_type: &str, data: Vec<u8>) -> (r: EmitEventsAndResponse)
    ensures
        r@.events == Seq::<SerializedObjectView>::empty(),
        r@.response == Some(wrapped(object_type@, data@)),
{
    let r = EmitEventsAndResponse { events: Vec::new(), response: Some(wrap(object_type, data)) };
    assert(r@.events =~= Seq::<SerializedObjectView>::empty());
    r
}

/// A handler's outcome with no events whose response is the encoded value
/// `data` of type `object_type`.
pub fn emit_applicable_events_and_response(object_type: &str, data: Vec<u8>) -> (r:
    EmitApplicableEventsAndResponse)
    ensures
        r@.events == Seq::<(Seq<char>, Seq<u8>)>::empty(),
        r@.response == Some(wrapped(object_type@, data@)),
{
    let r = EmitApplicableEventsAndResponse {
        events: Vec::new(),
        response: Some(wrap(object_type, data)),
    };
    assert(r@.events =~= Seq::<(Seq<char>, Seq<u8>)>::empty());
    r
}

/// Adds the encoded event `data` of type `object_type` after the events that
/// `holder` has.
pub fn emit(holder: &mut EmitEventsAndResponse, object_type: &str, data: Vec<u8>)
    ensures
        final(holder)@.events == old(holder)@.events.push(wrapped(object_type@, data@)),
        final(holder)@.response == old(holder)@.response,
{
    let payload = wrap(object_type, data);
    holder.events.push(payload);
    assert(holder@.events =~= old(holder)@.events.push(wrapped(object_type@, data@)));
}

/// Adds the event of type `object_type` with the encoded body `data` after
/// the events that `holder` has.
pub fn emit_applicable(
    holder: &mut EmitApplicableEventsAndResponse,
    object_type: &str,
    data: Vec<u8>,
)
    ensures
        final(holder)@.events == old(holder)@.events.push((object_type@, data@)),
        final(holder)@.response == old(holder)@.response,
{
    holder.events.push((String::from_str(object_type), data));
    assert(holder@.events =~= old(holder)@.events.push((object_type@, data@)));
}

/// What goes back up the command stream for a handler's outcome: its
/// response, and none of its events.
pub open spec fn stripped(outcome: OutcomeView) -> EmittedView {
    EmittedView { events: Seq::<SerializedObjectView>::empty(), response: outcome.response }
}

/// Drops the events of a handler's outcome and keeps its response.
pub fn strip_events(outcome: &EmitApplicableEventsAndResponse) -> (r: EmitEventsAndResponse)
    ensures
        r@ == stripped(outcome@),
{
    let r = EmitEventsAndResponse { events: Vec::new(), response: clone_payload(&outcome.response) };
    assert(r@.events =~= Seq::<SerializedObjectView>::empty());
    r
}

/// How handling a command ended.
pub type ResultView = Result<Option<EmittedView>, CommandErrorView>;

/// What a handling result holds.
pub open spec fn result_view(r: Result<Option<EmitEventsAndResponse>, CommandError>) -> ResultView {
    match r {
        Ok(o) => Ok(o.deep_view()),
        Err(e) => Err(e@),
    }
}

} // verus!
