//! What holds of every run of the command pipeline: it makes progress, its
//! replay is the fold of the history through the sourcing handlers, and a
//! command without an aggregate identifier of its own gets one from its
//! response or fails.

use crate::aggregate::DefinitionView;
use crate::error::{from_handler, CommandErrorView, HandlerErrorView};
use crate::message::{CommandView, EventView, SerializedObjectView};
use crate::outcome::{stripped, OutcomeView};
use crate::pipeline::{
    dispatch, finished, replay_from, start_model, step_model, well_formed, ActionView,
    AnswerView, PipelineView, Stage, FROM_THE_FIRST,
};
use crate::store::{fits, records, StampResult, StampView};
use vstd::prelude::*;

verus! {

/// How far a stage is from the end.
pub open spec fn rank(stage: Stage) -> nat {
    match stage {
        Stage::ExtractingIdentifier => 7,
        Stage::ReadingHistory => 6,
        Stage::Replaying => 5,
        Stage::Handling => 4,
        Stage::ResolvingIdentifier => 3,
        Stage::ReadingSequenceNumber => 2,
        Stage::Appending => 1,
        Stage::Finished => 0,
    }
}

/// Going on with the replay changes the stage and the cursor only. It stops
/// on the first event at or after the cursor that has a payload, which it
/// asks to be applied or, where the aggregate has no sourcing handler for
/// its type, fails on; past the last event it hands the command to its
/// handler.
pub proof fn lemma_replay_from<P>(def: DefinitionView, s: PipelineView<P>)
    requires
        0 <= s.cursor,
    ensures
        ({
            let r = replay_from(def, s);
            &&& r.0 == PipelineView { stage: r.0.stage, cursor: r.0.cursor, ..s }
            &&& s.cursor <= r.0.cursor
            &&& forall|i: int| s.cursor <= i < r.0.cursor && i < s.history.len()
                ==> (#[trigger] s.history[i]).payload is None
            &&& r == if r.0.cursor < s.history.len() {
                let payload = s.history[r.0.cursor].payload->0;
                if def.sourcing.contains(payload.object_type) {
                    (
                        PipelineView { stage: Stage::Replaying, cursor: r.0.cursor, ..s },
                        ActionView::ApplyEvent {
                            object_type: payload.object_type,
                            data: payload.data,
                        },
                    )
                } else {
                    finished(
                        PipelineView { cursor: r.0.cursor, ..s },
                        Err(CommandErrorView::MissingSourcingHandler(payload.object_type)),
                    )
                }
            } else {
                dispatch(def, PipelineView { cursor: r.0.cursor, ..s })
            }
            &&& r.0.cursor < s.history.len() ==> s.history[r.0.cursor].payload is Some
        }),
    decreases s.history.len() - s.cursor,
{
    if s.cursor < s.history.len() {
        if s.history[s.cursor].payload is None {
            lemma_replay_from(def, PipelineView { cursor: s.cursor + 1, ..s });
        }
    }
}

/// Progress. Every move either ends the handling or brings the pipeline to
/// a later stage, except that a replay may stay a replay, and then its
/// cursor has moved forward in the same history. The action is `Finish`
/// exactly when the pipeline is finished, and a finished pipeline stays
/// finished. So every command comes to its one result after no more moves
/// than its history has events, and seven.
pub proof fn lemma_progress<P>(
    def: DefinitionView,
    s: PipelineView<P>,
    answer: AnswerView<P>,
    stamp: StampResult,
)
    requires
        well_formed(s),
    ensures
        ({
            let r = step_model(def, s, answer, stamp);
            &&& well_formed(r.0)
            &&& r.1 is Finish <==> r.0.stage == Stage::Finished
            &&& s.stage == Stage::Finished ==> r.0.stage == Stage::Finished
            &&& s.stage != Stage::Finished ==> rank(r.0.stage) < rank(s.stage) || (s.stage
                == Stage::Replaying && r.0.stage == Stage::Replaying && r.0.history == s.history
                && s.cursor < r.0.cursor)
        }),
{
    match (s.stage, answer) {
        (Stage::ReadingHistory, AnswerView::History(Ok(history))) => {
            lemma_replay_from(def, PipelineView { history, cursor: 0, ..s });
        },
        (Stage::Replaying, AnswerView::Projection(Ok(Some(projection)))) => {
            lemma_replay_from(def, PipelineView { projection, cursor: s.cursor + 1, ..s });
        },
        (Stage::Replaying, AnswerView::Projection(Ok(None))) => {
            lemma_replay_from(def, PipelineView { cursor: s.cursor + 1, ..s });
        },
        _ => {},
    }
}

/// How many moves a pipeline that has its history may still make, at most.
pub open spec fn moves_left<P>(s: PipelineView<P>) -> nat {
    match s.stage {
        Stage::Replaying => if s.cursor < s.history.len() {
            (5 + s.history.len() - s.cursor) as nat
        } else {
            5
        },
        stage => rank(stage),
    }
}

/// Once the history is read, every move brings the end nearer: a command
/// comes to its result after no more moves than the history has events
/// after the cursor, and five.
pub proof fn lemma_moves_left<P>(
    def: DefinitionView,
    s: PipelineView<P>,
    answer: AnswerView<P>,
    stamp: StampResult,
)
    requires
        well_formed(s),
        s.stage != Stage::Finished,
        s.stage != Stage::ExtractingIdentifier,
        s.stage != Stage::ReadingHistory,
    ensures
        moves_left(step_model(def, s, answer, stamp).0) < moves_left(s),
{
    lemma_progress(def, s, answer, stamp);
}

/// The first move leaves the pipeline well formed, and its action is
/// `Finish` exactly when the pipeline is finished.
pub proof fn lemma_start<P>(def: DefinitionView, command: CommandView, empty: P)
    ensures
        well_formed(start_model(def, command, empty).0),
        start_model(def, command, empty).1 is Finish <==> start_model(def, command, empty).0.stage
            == Stage::Finished,
        start_model(def, command, empty).0.projection == empty,
{
}

/// What a sourcing handler makes of an event's type, its bytes and the
/// projection so far.
pub type Sourcing<P> = spec_fn(Seq<char>, Seq<u8>, P) -> Result<Option<P>, HandlerErrorView>;

/// The projection after `history` is folded into `projection`, first event
/// first. An event without a payload changes nothing; an event whose type
/// has no sourcing handler fails the fold, as does a handler that fails; a
/// handler that yields no projection leaves the projection as it is.
pub open spec fn replayed<P>(
    sourcing: Seq<Seq<char>>,
    apply: Sourcing<P>,
    history: Seq<EventView>,
    projection: P,
) -> Result<P, CommandErrorView>
    decreases history.len(),
{
    if history.len() == 0 {
        Ok(projection)
    } else {
        match history[0].payload {
            None => replayed(sourcing, apply, history.drop_first(), projection),
            Some(payload) => if !sourcing.contains(payload.object_type) {
                Err(CommandErrorView::MissingSourcingHandler(payload.object_type))
            } else {
                match apply(payload.object_type, payload.data, projection) {
                    Err(e) => Err(from_handler(e)),
                    Ok(Some(next)) => replayed(sourcing, apply, history.drop_first(), next),
                    Ok(None) => replayed(sourcing, apply, history.drop_first(), projection),
                }
            },
        }
    }
}

/// The pipeline after its requests to apply an event are answered by
/// `apply`, one after the other, until it asks for something else or
/// `fuel` requests have been answered.
pub open spec fn replay_run<P>(
    def: DefinitionView,
    apply: Sourcing<P>,
    s: PipelineView<P>,
    action: ActionView,
    stamp: StampResult,
    fuel: nat,
) -> (PipelineView<P>, ActionView)
    decreases fuel,
{
    if fuel == 0 {
        (s, action)
    } else {
        match action {
            ActionView::ApplyEvent { object_type, data } => {
                let next = step_model(
                    def,
                    s,
                    AnswerView::Projection(apply(object_type, data, s.projection)),
                    stamp,
                );
                replay_run(def, apply, next.0, next.1, stamp, (fuel - 1) as nat)
            },
            _ => (s, action),
        }
    }
}

/// The replay is the fold. When the pipeline goes on with its replay from
/// the cursor and each event is applied as `apply` says, it ends where the
/// fold of the rest of the history ends: with the folded projection handed
/// to the command handler, or finished with the fold's error.
pub proof fn lemma_replay_is_fold<P>(
    def: DefinitionView,
    apply: Sourcing<P>,
    s: PipelineView<P>,
    stamp: StampResult,
    fuel: nat,
)
    requires
        0 <= s.cursor <= s.history.len(),
        fuel >= s.history.len() - s.cursor,
    ensures
        ({
            let begun = replay_from(def, s);
            let ended = replay_run(def, apply, begun.0, begun.1, stamp, fuel);
            match replayed(def.sourcing, apply, s.history.skip(s.cursor), s.projection) {
                Ok(projection) => ended == dispatch(
                    def,
                    PipelineView { projection, cursor: s.history.len() as int, ..s },
                ),
                Err(e) => ended.1 == ActionView::Finish(Err(e)) && ended.0.stage
                    == Stage::Finished,
            }
        }),
    decreases s.history.len() - s.cursor,
{
    let rest = s.history.skip(s.cursor);
    let begun = replay_from(def, s);
    if s.cursor == s.history.len() {
        assert(rest.len() == 0);
        assert(PipelineView { projection: s.projection, cursor: s.history.len() as int, ..s }
            == s);
    } else {
        assert(rest[0] == s.history[s.cursor]);
        assert(rest.drop_first() =~= s.history.skip(s.cursor + 1));
        match s.history[s.cursor].payload {
            None => {
                lemma_replay_is_fold(
                    def,
                    apply,
                    PipelineView { cursor: s.cursor + 1, ..s },
                    stamp,
                    fuel,
                );
            },
            Some(payload) => {
                if def.sourcing.contains(payload.object_type) {
                    let waiting = PipelineView { stage: Stage::Replaying, ..s };
                    assert(begun.0 == waiting);
                    match apply(payload.object_type, payload.data, s.projection) {
                        Err(e) => {
                            let stopped = finished(waiting, Err(from_handler(e)));
                            assert(replay_run(def, apply, begun.0, begun.1, stamp, fuel)
                                == replay_run(
                                def,
                                apply,
                                stopped.0,
                                stopped.1,
                                stamp,
                                (fuel - 1) as nat,
                            ));
                        },
                        Ok(Some(next)) => {
                            let resumed = PipelineView {
                                projection: next,
                                cursor: s.cursor + 1,
                                ..waiting
                            };
                            lemma_replay_is_fold(def, apply, resumed, stamp, (fuel - 1) as nat);
                            assert(resumed.history.skip(resumed.cursor) == s.history.skip(
                                s.cursor + 1,
                            ));
                        },
                        Ok(None) => {
                            let resumed = PipelineView { cursor: s.cursor + 1, ..waiting };
                            lemma_replay_is_fold(def, apply, resumed, stamp, (fuel - 1) as nat);
                            assert(resumed.history.skip(resumed.cursor) == s.history.skip(
                                s.cursor + 1,
                            ));
                        },
                    }
                } else {
                }
            },
        }
    }
}

/// Replay determinism. Two replays of one history from one projection,
/// answered by the same sourcing handlers, end alike: with the same action
/// and, where the fold succeeds, with the same projection, which is the
/// fold's.
pub proof fn lemma_replay_deterministic<P>(
    def: DefinitionView,
    apply: Sourcing<P>,
    s: PipelineView<P>,
    first_stamp: StampResult,
    first_fuel: nat,
    second_stamp: StampResult,
    second_fuel: nat,
)
    requires
        0 <= s.cursor <= s.history.len(),
        first_fuel >= s.history.len() - s.cursor,
        second_fuel >= s.history.len() - s.cursor,
    ensures
        ({
            let begun = replay_from(def, s);
            let first = replay_run(def, apply, begun.0, begun.1, first_stamp, first_fuel);
            let second = replay_run(def, apply, begun.0, begun.1, second_stamp, second_fuel);
            &&& first.1 == second.1
            &&& first.0.stage == second.0.stage
            &&& replayed(def.sourcing, apply, s.history.skip(s.cursor), s.projection) matches Ok(
                projection,
            ) ==> first.0.projection == projection && second.0.projection == projection
        }),
{
    lemma_replay_is_fold(def, apply, s, first_stamp, first_fuel);
    lemma_replay_is_fold(def, apply, s, second_stamp, second_fuel);
}

/// Identity after response, the good case. A command whose aggregate
/// identifier is not known when its handler returns, and whose handler
/// produces a response of a type that the aggregate has an identifier
/// extractor for, has the identifier extracted from that response; with
/// the identifier that comes back its events are appended, numbered after
/// the aggregate's highest sequence number, and its response goes back
/// without the events.
pub proof fn lemma_identity_after_response<P>(
    def: DefinitionView,
    s: PipelineView<P>,
    outcome: OutcomeView,
    response: SerializedObjectView,
    id: Seq<char>,
    highest: i64,
    stamp: StampView,
    other: StampResult,
)
    requires
        s.stage == Stage::Handling,
        s.aggregate_id is None,
        outcome.response == Some(response),
        def.extractors.contains(response.object_type),
        fits(highest as int, outcome.events.len() as int),
    ensures
        ({
            let sought = step_model(def, s, AnswerView::Outcome(Ok(Some(outcome))), other);
            let found = step_model(def, sought.0, AnswerView::Identifier(Ok(Some(id))), other);
            let numbered = step_model(
                def,
                found.0,
                AnswerView::HighestSequenceNumber(Ok(highest)),
                Ok(stamp),
            );
            let stored = step_model(def, numbered.0, AnswerView::Appended(Ok(())), other);
            &&& sought.1 == ActionView::ExtractIdentifier {
                key: response.object_type,
                data: response.data,
            }
            &&& found.1 == ActionView::ReadHighestSequenceNumber {
                aggregate_identifier: id,
                from_sequence_nr: FROM_THE_FIRST,
            }
            &&& numbered.1 == ActionView::AppendEvents {
                events: records(def.name, id, outcome.events, highest, stamp),
            }
            &&& stored.1 == ActionView::Finish(Ok(Some(stripped(outcome))))
        }),
{
}

/// Identity after response, the bad case. A command whose aggregate
/// identifier is not known when its handler returns fails with
/// `MissingAggregateIdentifier` where the handler gave no response, or a
/// response of a type that the aggregate has no identifier extractor for,
/// and where the extractor finds no identifier in the response.
pub proof fn lemma_missing_identity<P>(
    def: DefinitionView,
    s: PipelineView<P>,
    outcome: Option<OutcomeView>,
    stamp: StampResult,
)
    requires
        s.stage == Stage::Handling,
        s.aggregate_id is None,
    ensures
        ({
            let next = step_model(def, s, AnswerView::Outcome(Ok(outcome)), stamp);
            let resolvable = outcome matches Some(o) && o.response matches Some(r)
                && def.extractors.contains(r.object_type);
            &&& !resolvable ==> next.1 == ActionView::Finish(
                Err(CommandErrorView::MissingAggregateIdentifier),
            )
            &&& resolvable ==> next.0.stage == Stage::ResolvingIdentifier && step_model(
                def,
                next.0,
                AnswerView::Identifier(Ok(None)),
                stamp,
            ).1 == ActionView::Finish(Err(CommandErrorView::MissingAggregateIdentifier))
        }),
{
}

/// A command comes to its handler without an aggregate identifier where the
/// aggregate has no identifier extractor for the command's name, and where
/// the extractor finds no identifier in the command.
pub proof fn lemma_unresolved_before_dispatch<P>(
    def: DefinitionView,
    command: CommandView,
    empty: P,
    stamp: StampResult,
)
    requires
        command.payload is Some,
        def.commands.contains(command.name),
    ensures
        ({
            let begun = start_model(def, command, empty);
            let passed = step_model(def, begun.0, AnswerView::Identifier(Ok(None)), stamp);
            &&& !def.extractors.contains(command.name) ==> begun.0.stage == Stage::Handling
                && begun.0.aggregate_id is None && begun.0.projection == empty
            &&& def.extractors.contains(command.name) ==> begun.0.stage
                == Stage::ExtractingIdentifier && passed.0.stage == Stage::Handling
                && passed.0.aggregate_id is None && passed.0.projection == empty
        }),
{
}

} // verus!
