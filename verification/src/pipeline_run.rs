//! The whole handling of a command, from its first move to its result, when
//! the outside world answers as a function of what it is asked.

use crate::aggregate::DefinitionView;
use crate::error::{from_handler, CommandErrorView, HandlerErrorView};
use crate::message::{CommandView, EventView};
use crate::outcome::{stripped, OutcomeView, ResultView};
use crate::pipeline::{
    dispatch, persist, replay_from, start_model, step_model, ActionView, AnswerView,
    PipelineView, Stage,
};
use crate::pipeline_laws::{replayed, Sourcing};
use crate::store::{fits, records, StampResult};
use vstd::prelude::*;

verus! {

/// How the handlers of an aggregate, the event store and the clock answer.
#[verifier::reject_recursive_types(P)]
pub struct World<P> {
    /// What the identifier extractor for a type makes of bytes.
    pub extract: spec_fn(Seq<char>, Seq<u8>) -> Result<Option<Seq<char>>, HandlerErrorView>,
    /// The events that the store holds for an aggregate.
    pub history: spec_fn(Seq<char>) -> Result<Seq<EventView>, Seq<char>>,
    /// What the sourcing handler for a type makes of bytes and a projection.
    pub apply: Sourcing<P>,
    /// What the command handler for a name makes of bytes and a projection.
    pub handle: spec_fn(Seq<char>, Seq<u8>, P) -> Result<Option<OutcomeView>, HandlerErrorView>,
    /// The highest sequence number that the store holds for an aggregate.
    pub highest: spec_fn(Seq<char>) -> Result<i64, Seq<char>>,
    /// Whether the store takes the records.
    pub append: spec_fn(Seq<EventView>) -> Result<(), Seq<char>>,
    /// The stamp for the records of this command.
    pub stamp: StampResult,
}

/// How the world answers what the pipeline asks for.
pub open spec fn answer<P>(world: World<P>, s: PipelineView<P>, action: ActionView) -> AnswerView<
    P,
> {
    match action {
        ActionView::ExtractIdentifier { key, data } => AnswerView::Identifier(
            (world.extract)(key, data),
        ),
        ActionView::ReadEvents { aggregate_identifier } => AnswerView::History(
            (world.history)(aggregate_identifier),
        ),
        ActionView::ApplyEvent { object_type, data } => AnswerView::Projection(
            (world.apply)(object_type, data, s.projection),
        ),
        ActionView::HandleCommand { name, data } => AnswerView::Outcome(
            (world.handle)(name, data, s.projection),
        ),
        ActionView::ReadHighestSequenceNumber {
            aggregate_identifier,
            ..
        } => AnswerView::HighestSequenceNumber((world.highest)(aggregate_identifier)),
        ActionView::AppendEvents { events } => AnswerView::Appended((world.append)(events)),
        ActionView::Finish(_) => AnswerView::Appended(Ok(())),
    }
}

/// The result that the pipeline comes to when the world answers each of its
/// requests, or none where `fuel` answers do not bring it to its end.
pub open spec fn drive<P>(
    def: DefinitionView,
    world: World<P>,
    s: PipelineView<P>,
    action: ActionView,
    fuel: nat,
) -> Option<ResultView>
    decreases fuel,
{
    match action {
        ActionView::Finish(result) => Some(result),
        _ => if fuel == 0 {
            None
        } else {
            let next = step_model(def, s, answer(world, s, action), world.stamp);
            drive(def, world, next.0, next.1, (fuel - 1) as nat)
        },
    }
}

/// Storing what a handler emitted for the aggregate `id`: nothing where it
/// gave no outcome; else the records of its events, numbered after the
/// highest number in the store, are appended, and its response goes back.
pub open spec fn stored<P>(
    def: DefinitionView,
    world: World<P>,
    id: Seq<char>,
    outcome: Option<OutcomeView>,
) -> ResultView {
    match outcome {
        None => Ok(None),
        Some(o) => match (world.highest)(id) {
            Err(m) => Err(CommandErrorView::Store(m)),
            Ok(highest) => match world.stamp {
                Err(e) => Err(e),
                Ok(stamp) => if !fits(highest as int, o.events.len() as int) {
                    Err(CommandErrorView::SequenceExhausted)
                } else {
                    match (world.append)(records(def.name, id, o.events, highest, stamp)) {
                        Err(m) => Err(CommandErrorView::Store(m)),
                        Ok(_) => Ok(Some(stripped(o))),
                    }
                },
            },
        },
    }
}

/// The aggregate identifier that the response of `outcome` names, where the
/// aggregate has an extractor for the response's type.
pub open spec fn identified<P>(def: DefinitionView, world: World<P>, outcome: Option<OutcomeView>)
    -> Result<Option<Seq<char>>, HandlerErrorView> {
    match outcome {
        Some(OutcomeView { response: Some(response), .. }) => if def.extractors.contains(
            response.object_type,
        ) {
            (world.extract)(response.object_type, response.data)
        } else {
            Ok(None)
        },
        _ => Ok(None),
    }
}

/// Handing the command to its handler, with the projection `projection` and
/// the aggregate identifier `id`, if one is known, and what follows.
pub open spec fn dispatched<P>(
    def: DefinitionView,
    world: World<P>,
    name: Seq<char>,
    data: Seq<u8>,
    id: Option<Seq<char>>,
    projection: P,
) -> ResultView {
    if !def.commands.contains(name) {
        Err(CommandErrorView::NoCommandHandler(name))
    } else {
        match (world.handle)(name, data, projection) {
            Err(e) => Err(from_handler(e)),
            Ok(outcome) => match id {
                Some(i) => stored(def, world, i, outcome),
                None => match identified(def, world, outcome) {
                    Err(e) => Err(from_handler(e)),
                    Ok(None) => Err(CommandErrorView::MissingAggregateIdentifier),
                    Ok(Some(i)) => stored(def, world, i, outcome),
                },
            },
        }
    }
}

/// Handling a command, as one function of the command and the world: the
/// payload is required; the aggregate identifier is extracted from it where
/// the aggregate has an extractor for the command's name; with an
/// identifier, the aggregate's history is folded into the empty projection;
/// the command handler is invoked; without an identifier so far, one is
/// sought in the response; with one, the events are stored and the
/// response goes back; without one, handling fails.
pub open spec fn handled<P>(def: DefinitionView, world: World<P>, command: CommandView, empty: P)
    -> ResultView {
    match command.payload {
        None => Err(CommandErrorView::MissingPayload(command.name)),
        Some(payload) => {
            let found = if def.extractors.contains(command.name) {
                (world.extract)(command.name, payload.data)
            } else {
                Ok(None)
            };
            match found {
                Err(e) => Err(from_handler(e)),
                Ok(None) => dispatched(def, world, command.name, payload.data, None, empty),
                Ok(Some(id)) => match (world.history)(id) {
                    Err(m) => Err(CommandErrorView::Store(m)),
                    Ok(history) => match replayed(def.sourcing, world.apply, history, empty) {
                        Err(e) => Err(e),
                        Ok(projection) => dispatched(
                            def,
                            world,
                            command.name,
                            payload.data,
                            Some(id),
                            projection,
                        ),
                    },
                },
            }
        },
    }
}

/// The most answers that handling `command` takes.
pub open spec fn enough<P>(def: DefinitionView, world: World<P>, command: CommandView) -> nat {
    match command.payload {
        Some(payload) => if def.extractors.contains(command.name) {
            match (world.extract)(command.name, payload.data) {
                Ok(Some(id)) => match (world.history)(id) {
                    Ok(history) => history.len() + 7,
                    _ => 7,
                },
                _ => 7,
            }
        } else {
            7
        },
        None => 7,
    }
}

/// From the point where the events are to be stored, the pipeline comes to
/// what storing them gives.
pub proof fn lemma_drive_persist<P>(
    def: DefinitionView,
    world: World<P>,
    s: PipelineView<P>,
    id: Seq<char>,
    fuel: nat,
)
    requires
        s.aggregate_id == Some(id),
        fuel >= 2,
    ensures
        drive(def, world, persist(s).0, persist(s).1, fuel) == Some(
            stored(def, world, id, s.outcome),
        ),
{
    reveal_with_fuel(drive, 3);
}

/// From the point where the command is handed to its handler, the pipeline
/// comes to what dispatching gives.
pub proof fn lemma_drive_dispatch<P>(
    def: DefinitionView,
    world: World<P>,
    s: PipelineView<P>,
    fuel: nat,
)
    requires
        fuel >= 4,
    ensures
        drive(def, world, dispatch(def, s).0, dispatch(def, s).1, fuel) == Some(
            dispatched(def, world, s.command_name, s.data, s.aggregate_id, s.projection),
        ),
{
    reveal_with_fuel(drive, 4);
    if def.commands.contains(s.command_name) {
        let waiting = dispatch(def, s).0;
        match (world.handle)(s.command_name, s.data, s.projection) {
            Err(e) => {},
            Ok(outcome) => {
                let known = PipelineView { outcome, ..waiting };
                match s.aggregate_id {
                    Some(id) => {
                        lemma_drive_persist(def, world, known, id, (fuel - 1) as nat);
                    },
                    None => {
                        match identified(def, world, outcome) {
                            Ok(Some(id)) => {
                                let sought = PipelineView {
                                    stage: Stage::ResolvingIdentifier,
                                    ..known
                                };
                                let resolved = PipelineView { aggregate_id: Some(id), ..sought };
                                lemma_drive_persist(def, world, resolved, id, (fuel - 2) as nat);
                            },
                            _ => {},
                        }
                    },
                }
            },
        }
    }
}

/// From any point of the replay, the pipeline comes to what the fold of the
/// rest of the history and the dispatch after it give.
pub proof fn lemma_drive_replay<P>(
    def: DefinitionView,
    world: World<P>,
    s: PipelineView<P>,
    fuel: nat,
)
    requires
        0 <= s.cursor <= s.history.len(),
        fuel >= s.history.len() - s.cursor + 4,
    ensures
        drive(def, world, replay_from(def, s).0, replay_from(def, s).1, fuel) == Some(
            match replayed(def.sourcing, world.apply, s.history.skip(s.cursor), s.projection) {
                Ok(projection) => dispatched(
                    def,
                    world,
                    s.command_name,
                    s.data,
                    s.aggregate_id,
                    projection,
                ),
                Err(e) => Err(e),
            },
        ),
    decreases s.history.len() - s.cursor,
{
    reveal_with_fuel(drive, 2);
    let rest = s.history.skip(s.cursor);
    if s.cursor == s.history.len() {
        assert(rest.len() == 0);
        lemma_drive_dispatch(def, world, s, fuel);
    } else {
        assert(rest[0] == s.history[s.cursor]);
        assert(rest.drop_first() =~= s.history.skip(s.cursor + 1));
        match s.history[s.cursor].payload {
            None => {
                lemma_drive_replay(def, world, PipelineView { cursor: s.cursor + 1, ..s }, fuel);
            },
            Some(payload) => {
                if def.sourcing.contains(payload.object_type) {
                    let waiting = PipelineView { stage: Stage::Replaying, ..s };
                    match (world.apply)(payload.object_type, payload.data, s.projection) {
                        Err(e) => {},
                        Ok(Some(next)) => {
                            let resumed = PipelineView {
                                projection: next,
                                cursor: s.cursor + 1,
                                ..waiting
                            };
                            lemma_drive_replay(def, world, resumed, (fuel - 1) as nat);
                        },
                        Ok(None) => {
                            let resumed = PipelineView { cursor: s.cursor + 1, ..waiting };
                            lemma_drive_replay(def, world, resumed, (fuel - 1) as nat);
                        },
                    }
                }
            },
        }
    }
}

/// The pipeline computes the handling of a command. Whatever the handlers,
/// the store and the clock answer, as long as they answer as functions of
/// what they are asked, the pipeline that starts on a command comes to the
/// result of `handled`, after no more answers than the aggregate's history
/// has events, and seven.
pub proof fn lemma_drive_computes_handled<P>(
    def: DefinitionView,
    world: World<P>,
    command: CommandView,
    empty: P,
    fuel: nat,
)
    requires
        fuel >= enough(def, world, command),
    ensures
        drive(
            def,
            world,
            start_model(def, command, empty).0,
            start_model(def, command, empty).1,
            fuel,
        ) == Some(handled(def, world, command, empty)),
{
    reveal_with_fuel(drive, 3);
    let begun = start_model(def, command, empty);
    match command.payload {
        None => {},
        Some(payload) => {
            let s = PipelineView {
                stage: Stage::Finished,
                command_name: command.name,
                data: payload.data,
                aggregate_id: None,
                projection: empty,
                history: Seq::empty(),
                cursor: 0,
                outcome: None,
            };
            if def.extractors.contains(command.name) {
                let asking = PipelineView { stage: Stage::ExtractingIdentifier, ..s };
                assert(begun.0 == asking);
                match (world.extract)(command.name, payload.data) {
                    Err(e) => {},
                    Ok(None) => {
                        lemma_drive_dispatch(def, world, asking, (fuel - 1) as nat);
                    },
                    Ok(Some(id)) => {
                        let reading = PipelineView {
                            stage: Stage::ReadingHistory,
                            aggregate_id: Some(id),
                            ..asking
                        };
                        match (world.history)(id) {
                            Err(m) => {},
                            Ok(history) => {
                                let read = PipelineView { history, cursor: 0, ..reading };
                                assert(history.skip(0) =~= history);
                                lemma_drive_replay(def, world, read, (fuel - 2) as nat);
                            },
                        }
                    },
                }
            } else {
                lemma_drive_dispatch(def, world, s, fuel);
            }
        },
    }
}

} // verus!
