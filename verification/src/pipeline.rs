//! Handling one command, as a machine that asks for one piece of outside
//! work at a time: extracting the aggregate identifier, reading the
//! aggregate's history, applying each event to the projection, invoking the
//! command handler, and appending the events that it emits.

use crate::aggregate::{AggregateDefinition, DefinitionView};
use crate::error::{from_handler, CommandError, CommandErrorView, HandlerError, HandlerErrorView};
use crate::message::{Command, CommandView, Event, EventView};
use crate::outcome::{
    result_view, strip_events, stripped, EmitApplicableEventsAndResponse, EmitEventsAndResponse,
    OutcomeView, ResultView,
};
use crate::store::{event_records, fits, records, stamp_view, Stamp, StampResult};
use vstd::prelude::*;

verus! {

/// The sequence number from which the highest one is asked for: the event
/// store then reports the latest of all.
pub const FROM_THE_FIRST: i64 = 0;

/// Where the handling of a command stands: which answer it waits for.
#[derive(Clone, Copy, Debug, PartialEq, Eq)]
pub enum Stage {
    /// Waits for the aggregate identifier that the command's payload names.
    ExtractingIdentifier,
    /// Waits for the aggregate's history.
    ReadingHistory,
    /// Waits for the projection after the event under the cursor.
    Replaying,
    /// Waits for the command handler's outcome.
    Handling,
    /// Waits for the aggregate identifier that the response names.
    ResolvingIdentifier,
    /// Waits for the aggregate's highest sequence number.
    ReadingSequenceNumber,
    /// Waits for the event store to take the new records.
    Appending,
    /// The result is out.
    Finished,
}

/// The outside work that the pipeline asks for next.
#[derive(Debug, PartialEq, Eq)]
pub enum Action {
    /// Invoke the identifier extractor registered under `key` on `data`.
    ExtractIdentifier { key: String, data: Vec<u8> },
    /// Read the events of the aggregate, in ascending order of sequence
    /// number.
    ReadEvents { aggregate_identifier: String },
    /// Invoke the sourcing handler registered under `object_type` on `data`
    /// and the pipeline's projection.
    ApplyEvent { object_type: String, data: Vec<u8> },
    /// Invoke the command handler registered under `name` on `data` and the
    /// pipeline's projection.
    HandleCommand { name: String, data: Vec<u8> },
    /// Ask the event store for the aggregate's highest sequence number,
    /// among all the numbers from `from_sequence_nr` on.
    ReadHighestSequenceNumber { aggregate_identifier: String, from_sequence_nr: i64 },
    /// Append the records to the event store, in one call.
    AppendEvents { events: Vec<Event> },
    /// Nothing more: this is how handling the command ended.
    Finish(Result<Option<EmitEventsAndResponse>, CommandError>),
}

/// What an [`Action`] holds.
pub enum ActionView {
    ExtractIdentifier { key: Seq<char>, data: Seq<u8> },
    ReadEvents { aggregate_identifier: Seq<char> },
    ApplyEvent { object_type: Seq<char>, data: Seq<u8> },
    HandleCommand { name: Seq<char>, data: Seq<u8> },
    ReadHighestSequenceNumber { aggregate_identifier: Seq<char>, from_sequence_nr: i64 },
    AppendEvents { events: Seq<EventView> },
    Finish(ResultView),
}

impl View for Action {
    type V = ActionView;

    open spec fn view(&self) -> ActionView {
        match self {
            Action::ExtractIdentifier { key, data } => ActionView::ExtractIdentifier {
                key: key@,
                data: data@,
            },
            Action::ReadEvents { aggregate_identifier } => ActionView::ReadEvents {
                aggregate_identifier: aggregate_identifier@,
            },
            Action::ApplyEvent { object_type, data } => ActionView::ApplyEvent {
                object_type: object_type@,
                data: data@,
            },
            Action::HandleCommand { name, data } => ActionView::HandleCommand {
                name: name@,
                data: data@,
            },
            Action::ReadHighestSequenceNumber {
                aggregate_identifier,
                from_sequence_nr,
            } => ActionView::ReadHighestSequenceNumber {
                aggregate_identifier: aggregate_identifier@,
                from_sequence_nr: *from_sequence_nr,
            },
            Action::AppendEvents { events } => ActionView::AppendEvents {
                events: events.deep_view(),
            },
            Action::Finish(result) => ActionView::Finish(result_view(*result)),
        }
    }
}

/// The outcome of the outside work that the pipeline asked for.
pub enum Answer<P> {
    /// What an identifier extractor returned.
    Identifier(Result<Option<String>, HandlerError>),
    /// The events that the event store holds for the aggregate.
    History(Result<Vec<Event>, String>),
    /// What a sourcing handler returned: a new projection, or none where it
    /// leaves the projection as it is.
    Projection(Result<Option<P>, HandlerError>),
    /// What the command handler returned.
    Outcome(Result<Option<EmitApplicableEventsAndResponse>, HandlerError>),
    /// The aggregate's highest sequence number.
    HighestSequenceNumber(Result<i64, String>),
    /// Whether the event store took the records.
    Appended(Result<(), String>),
}

/// What an [`Answer`] holds.
pub enum AnswerView<P> {
    Identifier(Result<Option<Seq<char>>, HandlerErrorView>),
    History(Result<Seq<EventView>, Seq<char>>),
    Projection(Result<Option<P>, HandlerErrorView>),
    Outcome(Result<Option<OutcomeView>, HandlerErrorView>),
    HighestSequenceNumber(Result<i64, Seq<char>>),
    Appended(Result<(), Seq<char>>),
}

impl<P> View for Answer<P> {
    type V = AnswerView<P>;

    open spec fn view(&self) -> AnswerView<P> {
        match self {
            Answer::Identifier(r) => AnswerView::Identifier(
                match r {
                    Ok(id) => Ok(id.deep_view()),
                    Err(e) => Err(e@),
                },
            ),
            Answer::History(r) => AnswerView::History(
                match r {
                    Ok(events) => Ok(events.deep_view()),
                    Err(m) => Err(m@),
                },
            ),
            Answer::Projection(r) => AnswerView::Projection(
                match r {
                    Ok(p) => Ok(*p),
                    Err(e) => Err(e@),
                },
            ),
            Answer::Outcome(r) => AnswerView::Outcome(
                match r {
                    Ok(o) => Ok(o.deep_view()),
                    Err(e) => Err(e@),
                },
            ),
            Answer::HighestSequenceNumber(r) => AnswerView::HighestSequenceNumber(
                match r {
                    Ok(n) => Ok(*n),
                    Err(m) => Err(m@),
                },
            ),
            Answer::Appended(r) => AnswerView::Appended(
                match r {
                    Ok(_) => Ok(()),
                    Err(m) => Err(m@),
                },
            ),
        }
    }
}

/// What the pipeline knows while it handles a command.
pub struct PipelineView<P> {
    pub stage: Stage,
    pub command_name: Seq<char>,
    /// The bytes of the command's payload.
    pub data: Seq<u8>,
    pub aggregate_id: Option<Seq<char>>,
    pub projection: P,
    pub history: Seq<EventView>,
    /// The place in the history of the next event to apply.
    pub cursor: int,
    pub outcome: Option<OutcomeView>,
}

/// While the pipeline replays, its cursor is on an event of the history.
pub open spec fn well_formed<P>(s: PipelineView<P>) -> bool {
    s.stage == Stage::Replaying ==> 0 <= s.cursor < s.history.len()
}

/// Handling ends with `result`.
pub open spec fn finished<P>(s: PipelineView<P>, result: ResultView) -> (
    PipelineView<P>,
    ActionView,
) {
    (PipelineView { stage: Stage::Finished, ..s }, ActionView::Finish(result))
}

/// Hands the command to its handler, or fails with `NoCommandHandler` where
/// the aggregate has none for the command's name.
pub open spec fn dispatch<P>(def: DefinitionView, s: PipelineView<P>) -> (
    PipelineView<P>,
    ActionView,
) {
    if def.commands.contains(s.command_name) {
        (
            PipelineView { stage: Stage::Handling, ..s },
            ActionView::HandleCommand { name: s.command_name, data: s.data },
        )
    } else {
        finished(s, Err(CommandErrorView::NoCommandHandler(s.command_name)))
    }
}

/// Goes on with the replay from the cursor: passes over events without a
/// payload, asks for the next event with a payload to be applied, or fails
/// with `MissingSourcingHandler` where the aggregate has no handler for its
/// type; after the last event, hands the command to its handler.
pub open spec fn replay_from<P>(def: DefinitionView, s: PipelineView<P>) -> (
    PipelineView<P>,
    ActionView,
)
    decreases s.history.len() - s.cursor,
{
    if s.cursor < 0 || s.cursor >= s.history.len() {
        dispatch(def, s)
    } else {
        match s.history[s.cursor].payload {
            None => replay_from(def, PipelineView { cursor: s.cursor + 1, ..s }),
            Some(payload) => if def.sourcing.contains(payload.object_type) {
                (
                    PipelineView { stage: Stage::Replaying, ..s },
                    ActionView::ApplyEvent { object_type: payload.object_type, data: payload.data },
                )
            } else {
                finished(s, Err(CommandErrorView::MissingSourcingHandler(payload.object_type)))
            },
        }
    }
}

/// Begins to store what the handler emitted: asks for the aggregate's
/// highest sequence number, or, where the handler gave no outcome, ends
/// with no response.
pub open spec fn persist<P>(s: PipelineView<P>) -> (PipelineView<P>, ActionView) {
    match s.aggregate_id {
        Some(id) => match s.outcome {
            Some(_) => (
                PipelineView { stage: Stage::ReadingSequenceNumber, ..s },
                ActionView::ReadHighestSequenceNumber {
                    aggregate_identifier: id,
                    from_sequence_nr: FROM_THE_FIRST,
                },
            ),
            None => finished(s, Ok(None)),
        },
        None => finished(s, Err(CommandErrorView::MissingAggregateIdentifier)),
    }
}

/// What follows the handler's outcome: with an aggregate identifier, the
/// events are stored; without one, the identifier is sought in the response,
/// where the aggregate has an extractor for the response's type; else
/// handling fails with `MissingAggregateIdentifier`.
pub open spec fn after_outcome<P>(def: DefinitionView, s: PipelineView<P>) -> (
    PipelineView<P>,
    ActionView,
) {
    if s.aggregate_id is Some {
        persist(s)
    } else {
        match s.outcome {
            Some(OutcomeView { response: Some(response), .. }) => if def.extractors.contains(
                response.object_type,
            ) {
                (
                    PipelineView { stage: Stage::ResolvingIdentifier, ..s },
                    ActionView::ExtractIdentifier {
                        key: response.object_type,
                        data: response.data,
                    },
                )
            } else {
                finished(s, Err(CommandErrorView::MissingAggregateIdentifier))
            },
            _ => finished(s, Err(CommandErrorView::MissingAggregateIdentifier)),
        }
    }
}

/// Asks for the records of the emitted events to be appended, numbered
/// after `highest`; fails where no stamp could be made, or with
/// `SequenceExhausted` where the sequence numbers do not suffice.
pub open spec fn append<P>(
    def: DefinitionView,
    s: PipelineView<P>,
    highest: i64,
    stamp: StampResult,
) -> (PipelineView<P>, ActionView) {
    match (s.aggregate_id, s.outcome) {
        (Some(id), Some(outcome)) => match stamp {
            Ok(stamp) => if fits(highest as int, outcome.events.len() as int) {
                (
                    PipelineView { stage: Stage::Appending, ..s },
                    ActionView::AppendEvents {
                        events: records(def.name, id, outcome.events, highest, stamp),
                    },
                )
            } else {
                finished(s, Err(CommandErrorView::SequenceExhausted))
            },
            Err(e) => finished(s, Err(e)),
        },
        _ => finished(s, Err(CommandErrorView::OutOfTurn)),
    }
}

/// The first move for `command` on the aggregate `def`, from the empty
/// projection `empty`: fails with `MissingPayload` where the command has no
/// payload; asks for the aggregate identifier where the aggregate has an
/// extractor for the command's name; else hands the command to its handler.
pub open spec fn start_model<P>(def: DefinitionView, command: CommandView, empty: P) -> (
    PipelineView<P>,
    ActionView,
) {
    let s = PipelineView {
        stage: Stage::Finished,
        command_name: command.name,
        data: match command.payload {
            Some(payload) => payload.data,
            None => Seq::empty(),
        },
        aggregate_id: None,
        projection: empty,
        history: Seq::empty(),
        cursor: 0,
        outcome: None,
    };
    if command.payload is None {
        finished(s, Err(CommandErrorView::MissingPayload(command.name)))
    } else if def.extractors.contains(command.name) {
        (
            PipelineView { stage: Stage::ExtractingIdentifier, ..s },
            ActionView::ExtractIdentifier { key: command.name, data: s.data },
        )
    } else {
        dispatch(def, s)
    }
}

/// The move that follows `answer`. `stamp` is used for the records of the
/// emitted events, and only when the answer is a highest sequence number
/// that was asked for. An answer that was not asked for ends handling with
/// `OutOfTurn`.
pub open spec fn step_model<P>(
    def: DefinitionView,
    s: PipelineView<P>,
    answer: AnswerView<P>,
    stamp: StampResult,
) -> (PipelineView<P>, ActionView) {
    match (s.stage, answer) {
        (Stage::ExtractingIdentifier, AnswerView::Identifier(r)) => match r {
            Err(e) => finished(s, Err(from_handler(e))),
            Ok(None) => dispatch(def, s),
            Ok(Some(id)) => (
                PipelineView { stage: Stage::ReadingHistory, aggregate_id: Some(id), ..s },
                ActionView::ReadEvents { aggregate_identifier: id },
            ),
        },
        (Stage::ReadingHistory, AnswerView::History(r)) => match r {
            Err(m) => finished(s, Err(CommandErrorView::Store(m))),
            Ok(history) => replay_from(def, PipelineView { history, cursor: 0, ..s }),
        },
        (Stage::Replaying, AnswerView::Projection(r)) => match r {
            Err(e) => finished(s, Err(from_handler(e))),
            Ok(Some(projection)) => replay_from(
                def,
                PipelineView { projection, cursor: s.cursor + 1, ..s },
            ),
            Ok(None) => replay_from(def, PipelineView { cursor: s.cursor + 1, ..s }),
        },
        (Stage::Handling, AnswerView::Outcome(r)) => match r {
            Err(e) => finished(s, Err(from_handler(e))),
            Ok(outcome) => after_outcome(def, PipelineView { outcome, ..s }),
        },
        (Stage::ResolvingIdentifier, AnswerView::Identifier(r)) => match r {
            Err(e) => finished(s, Err(from_handler(e))),
            Ok(None) => finished(s, Err(CommandErrorView::MissingAggregateIdentifier)),
            Ok(Some(id)) => persist(PipelineView { aggregate_id: Some(id), ..s }),
        },
        (Stage::ReadingSequenceNumber, AnswerView::HighestSequenceNumber(r)) => match r {
            Err(m) => finished(s, Err(CommandErrorView::Store(m))),
            Ok(highest) => append(def, s, highest, stamp),
        },
        (Stage::Appending, AnswerView::Appended(r)) => match r {
            Err(m) => finished(s, Err(CommandErrorView::Store(m))),
            Ok(_) => finished(
                s,
                Ok(
                    match s.outcome {
                        Some(outcome) => Some(stripped(outcome)),
                        None => None,
                    },
                ),
            ),
        },
        _ => finished(s, Err(CommandErrorView::OutOfTurn)),
    }
}

/// Whether the move that follows `answer` needs a stamp.
pub open spec fn needs_stamp<P>(s: PipelineView<P>, answer: AnswerView<P>) -> bool {
    s.stage == Stage::ReadingSequenceNumber && answer matches AnswerView::HighestSequenceNumber(
        Ok(_),
    )
}

/// The handling of one command, between one piece of outside work and the
/// next.
pub struct CommandPipeline<P> {
    stage: Stage,
    command_name: String,
    data: Vec<u8>,
    aggregate_id: Option<String>,
    projection: P,
    history: Vec<Event>,
    cursor: usize,
    outcome: Option<EmitApplicableEventsAndResponse>,
}

impl<P> View for CommandPipeline<P> {
    type V = PipelineView<P>;

    closed spec fn view(&self) -> PipelineView<P> {
        PipelineView {
            stage: self.stage,
            command_name: self.command_name@,
            data: self.data@,
            aggregate_id: self.aggregate_id.deep_view(),
            projection: self.projection,
            history: self.history.deep_view(),
            cursor: self.cursor as int,
            outcome: self.outcome.deep_view(),
        }
    }
}

impl<P> CommandPipeline<P> {
    #[verifier::type_invariant]
    spec fn cursor_in_history(self) -> bool {
        self.stage == Stage::Replaying ==> self.cursor < self.history@.len()
    }

    /// Which answer the pipeline waits for.
    pub fn stage(&self) -> (r: Stage)
        ensures
            r == self@.stage,
            well_formed(self@),
    {
        proof {
            use_type_invariant(self);
        }
        self.stage
    }

    /// The projection as far as the history has been applied.
    pub fn projection(&self) -> (r: &P)
        ensures
            *r == self@.projection,
    {
        &self.projection
    }

    /// The aggregate identifier, once it is known.
    pub fn aggregate_identifier(&self) -> (r: &Option<String>)
        ensures
            r.deep_view() == self@.aggregate_id,
    {
        &self.aggregate_id
    }

    fn finish(self, result: Result<Option<EmitEventsAndResponse>, CommandError>) -> (r: (
        Self,
        Action,
    ))
        ensures
            (r.0@, r.1@) == finished(self@, result_view(result)),
    {
        (
            CommandPipeline {
                stage: Stage::Finished,
                command_name: self.command_name,
                data: self.data,
                aggregate_id: self.aggregate_id,
                projection: self.projection,
                history: self.history,
                cursor: self.cursor,
                outcome: self.outcome,
            },
            Action::Finish(result),
        )
    }

    fn dispatch<F, X, C, S>(self, def: &AggregateDefinition<F, X, C, S>) -> (r: (Self, Action))
        ensures
            (r.0@, r.1@) == dispatch(def@, self@),
    {
        if def.command_handler_registry.contains(&self.command_name) {
            let action = Action::HandleCommand {
                name: self.command_name.clone(),
                data: self.data.clone(),
            };
            (
                CommandPipeline {
                    stage: Stage::Handling,
                    command_name: self.command_name,
                    data: self.data,
                    aggregate_id: self.aggregate_id,
                    projection: self.projection,
                    history: self.history,
                    cursor: self.cursor,
                    outcome: self.outcome,
                },
                action,
            )
        } else {
            let name = self.command_name.clone();
            self.finish(Err(CommandError::NoCommandHandler(name)))
        }
    }

    #[verifier::loop_isolation(false)]
    fn replay<F, X, C, S>(self, def: &AggregateDefinition<F, X, C, S>, from: usize) -> (r: (
        Self,
        Action,
    ))
        ensures
            (r.0@, r.1@) == replay_from(def@, PipelineView { cursor: from as int, ..self@ }),
    {
        let ghost start = self@;
        let CommandPipeline {
            stage: _,
            command_name,
            data,
            aggregate_id,
            projection,
            history,
            cursor: _,
            outcome,
        } = self;
        let n = history.len();
        let mut cursor = from;
        while cursor < n
            invariant
                n == history@.len(),
                history.deep_view() == start.history,
                replay_from(def@, PipelineView { cursor: cursor as int, ..start }) == replay_from(
                    def@,
                    PipelineView { cursor: from as int, ..start },
                ),
            decreases n - cursor,
        {
            match &history[cursor].payload {
                None => {
                    cursor += 1;
                },
                Some(payload) => {
                    if def.sourcing_handler_registry.contains(&payload.object_type) {
                        let action = Action::ApplyEvent {
                            object_type: payload.object_type.clone(),
                            data: payload.data.clone(),
                        };
                        return (
                            CommandPipeline {
                                stage: Stage::Replaying,
                                command_name,
                                data,
                                aggregate_id,
                                projection,
                                history,
                                cursor,
                                outcome,
                            },
                            action,
                        );
                    } else {
                        let missing = payload.object_type.clone();
                        let stopped = CommandPipeline {
                            stage: Stage::Finished,
                            command_name,
                            data,
                            aggregate_id,
                            projection,
                            history,
                            cursor,
                            outcome,
                        };
                        return stopped.finish(Err(CommandError::MissingSourcingHandler(missing)));
                    }
                },
            }
        }
        let done = CommandPipeline {
            stage: Stage::Finished,
            command_name,
            data,
            aggregate_id,
            projection,
            history,
            cursor,
            outcome,
        };
        done.dispatch(def)
    }

    fn persist(self) -> (r: (Self, Action))
        ensures
            (r.0@, r.1@) == persist(self@),
    {
        match &self.aggregate_id {
            Some(id) => {
                if self.outcome.is_some() {
                    let action = Action::ReadHighestSequenceNumber {
                        aggregate_identifier: id.clone(),
                        from_sequence_nr: FROM_THE_FIRST,
                    };
                    (
                        CommandPipeline {
                            stage: Stage::ReadingSequenceNumber,
                            command_name: self.command_name,
                            data: self.data,
                            aggregate_id: self.aggregate_id,
                            projection: self.projection,
                            history: self.history,
                            cursor: self.cursor,
                            outcome: self.outcome,
                        },
                        action,
                    )
                } else {
                    self.finish(Ok(None))
                }
            },
            None => self.finish(Err(CommandError::MissingAggregateIdentifier)),
        }
    }

    fn after_outcome<F, X, C, S>(self, def: &AggregateDefinition<F, X, C, S>) -> (r: (
        Self,
        Action,
    ))
        ensures
            (r.0@, r.1@) == after_outcome(def@, self@),
    {
        if self.aggregate_id.is_some() {
            return self.persist();
        }
        let mut sought: Option<Action> = None;
        match &self.outcome {
            Some(outcome) => {
                match &outcome.response {
                    Some(response) => {
                        if def.aggregate_id_extractor_registry.contains(&response.object_type) {
                            sought = Some(
                                Action::ExtractIdentifier {
                                    key: response.object_type.clone(),
                                    data: response.data.clone(),
                                },
                            );
                        }
                    },
                    None => {},
                }
            },
            None => {},
        }
        match sought {
            Some(action) => (
                CommandPipeline {
                    stage: Stage::ResolvingIdentifier,
                    command_name: self.command_name,
                    data: self.data,
                    aggregate_id: self.aggregate_id,
                    projection: self.projection,
                    history: self.history,
                    cursor: self.cursor,
                    outcome: self.outcome,
                },
                action,
            ),
            None => self.finish(Err(CommandError::MissingAggregateIdentifier)),
        }
    }

    fn append<F, X, C, S>(
        self,
        def: &AggregateDefinition<F, X, C, S>,
        highest: i64,
        stamp: Result<Stamp, CommandError>,
    ) -> (r: (Self, Action))
        ensures
            (r.0@, r.1@) == append(def@, self@, highest, stamp_view(stamp)),
    {
        let mut built: Option<Result<Vec<Event>, CommandError>> = None;
        match &self.aggregate_id {
            Some(id) => {
                match &self.outcome {
                    Some(outcome) => {
                        match stamp {
                            Ok(stamp) => {
                                built = Some(
                                    event_records(
                                        &def.projection_name,
                                        id,
                                        &outcome.events,
                                        highest,
                                        &stamp,
                                    ),
                                );
                            },
                            Err(e) => {
                                built = Some(Err(e));
                            },
                        }
                    },
                    None => {},
                }
            },
            None => {},
        }
        match built {
            Some(Ok(events)) => (
                CommandPipeline {
                    stage: Stage::Appending,
                    command_name: self.command_name,
                    data: self.data,
                    aggregate_id: self.aggregate_id,
                    projection: self.projection,
                    history: self.history,
                    cursor: self.cursor,
                    outcome: self.outcome,
                },
                Action::AppendEvents { events },
            ),
            Some(Err(e)) => self.finish(Err(e)),
            None => self.finish(Err(CommandError::OutOfTurn)),
        }
    }

    /// Begins to handle `command` on the aggregate `def`, from the empty
    /// projection `empty_projection`.
    pub fn start<F, X, C, S>(
        def: &AggregateDefinition<F, X, C, S>,
        command: &Command,
        empty_projection: P,
    ) -> (r: (Self, Action))
        ensures
            (r.0@, r.1@) == start_model(def@, command@, empty_projection),
    {
        let data = match &command.payload {
            Some(payload) => payload.data.clone(),
            None => Vec::new(),
        };
        let fresh = CommandPipeline {
            stage: Stage::Finished,
            command_name: command.name.clone(),
            data,
            aggregate_id: None,
            projection: empty_projection,
            history: Vec::new(),
            cursor: 0,
            outcome: None,
        };
        assert(fresh@.history =~= Seq::<EventView>::empty());
        assert(fresh@.data =~= start_model(def@, command@, empty_projection).0.data);
        if command.payload.is_none() {
            fresh.finish(Err(CommandError::MissingPayload(command.name.clone())))
        } else if def.aggregate_id_extractor_registry.contains(&command.name) {
            let action = Action::ExtractIdentifier {
                key: command.name.clone(),
                data: fresh.data.clone(),
            };
            (
                CommandPipeline {
                    stage: Stage::ExtractingIdentifier,
                    command_name: fresh.command_name,
                    data: fresh.data,
                    aggregate_id: fresh.aggregate_id,
                    projection: fresh.projection,
                    history: fresh.history,
                    cursor: fresh.cursor,
                    outcome: fresh.outcome,
                },
                action,
            )
        } else {
            fresh.dispatch(def)
        }
    }

    /// Takes the answer to the action that the pipeline asked for last and
    /// says what to do next. `stamp` marks the records of the emitted
    /// events, where the answer calls for them.
    pub fn step_stamped<F, X, C, S>(
        self,
        def: &AggregateDefinition<F, X, C, S>,
        answer: Answer<P>,
        stamp: Result<Stamp, CommandError>,
    ) -> (r: (Self, Action))
        ensures
            (r.0@, r.1@) == step_model(def@, self@, answer@, stamp_view(stamp)),
    {
        proof {
            use_type_invariant(&self);
        }
        let events = self.history.len();
        match (self.stage, answer) {
            (Stage::ExtractingIdentifier, Answer::Identifier(r)) => match r {
                Err(e) => self.finish(Err(CommandError::of_handler(e))),
                Ok(None) => self.dispatch(def),
                Ok(Some(id)) => {
                    let action = Action::ReadEvents { aggregate_identifier: id.clone() };
                    (
                        CommandPipeline {
                            stage: Stage::ReadingHistory,
                            command_name: self.command_name,
                            data: self.data,
                            aggregate_id: Some(id),
                            projection: self.projection,
                            history: self.history,
                            cursor: self.cursor,
                            outcome: self.outcome,
                        },
                        action,
                    )
                },
            },
            (Stage::ReadingHistory, Answer::History(r)) => match r {
                Err(m) => self.finish(Err(CommandError::Store(m))),
                Ok(history) => {
                    let read = CommandPipeline {
                        stage: Stage::ReadingHistory,
                        command_name: self.command_name,
                        data: self.data,
                        aggregate_id: self.aggregate_id,
                        projection: self.projection,
                        history,
                        cursor: 0,
                        outcome: self.outcome,
                    };
                    read.replay(def, 0)
                },
            },
            (Stage::Replaying, Answer::Projection(r)) => match r {
                Err(e) => self.finish(Err(CommandError::of_handler(e))),
                Ok(Some(projection)) => {
                    assert(self.cursor < events);
                    let next = self.cursor + 1;
                    let applied = CommandPipeline {
                        stage: Stage::Replaying,
                        command_name: self.command_name,
                        data: self.data,
                        aggregate_id: self.aggregate_id,
                        projection,
                        history: self.history,
                        cursor: self.cursor,
                        outcome: self.outcome,
                    };
                    applied.replay(def, next)
                },
                Ok(None) => {
                    assert(self.cursor < events);
                    let next = self.cursor + 1;
                    self.replay(def, next)
                },
            },
            (Stage::Handling, Answer::Outcome(r)) => match r {
                Err(e) => self.finish(Err(CommandError::of_handler(e))),
                Ok(outcome) => {
                    let handled = CommandPipeline {
                        stage: Stage::Handling,
                        command_name: self.command_name,
                        data: self.data,
                        aggregate_id: self.aggregate_id,
                        projection: self.projection,
                        history: self.history,
                        cursor: self.cursor,
                        outcome,
                    };
                    handled.after_outcome(def)
                },
            },
            (Stage::ResolvingIdentifier, Answer::Identifier(r)) => match r {
                Err(e) => self.finish(Err(CommandError::of_handler(e))),
                Ok(None) => self.finish(Err(CommandError::MissingAggregateIdentifier)),
                Ok(Some(id)) => {
                    let resolved = CommandPipeline {
                        stage: Stage::ResolvingIdentifier,
                        command_name: self.command_name,
                        data: self.data,
                        aggregate_id: Some(id),
                        projection: self.projection,
                        history: self.history,
                        cursor: self.cursor,
                        outcome: self.outcome,
                    };
                    resolved.persist()
                },
            },
            (Stage::ReadingSequenceNumber, Answer::HighestSequenceNumber(r)) => match r {
                Err(m) => self.finish(Err(CommandError::Store(m))),
                Ok(highest) => self.append(def, highest, stamp),
            },
            (Stage::Appending, Answer::Appended(r)) => match r {
                Err(m) => self.finish(Err(CommandError::Store(m))),
                Ok(_) => {
                    let response = match &self.outcome {
                        Some(outcome) => Some(strip_events(outcome)),
                        None => None,
                    };
                    self.finish(Ok(response))
                },
            },
            _ => self.finish(Err(CommandError::OutOfTurn)),
        }
    }

    /// Whether the move that follows `answer` needs a stamp.
    pub fn wants_stamp(&self, answer: &Answer<P>) -> (r: bool)
        ensures
            r == needs_stamp(self@, answer@),
    {
        match (self.stage, answer) {
            (Stage::ReadingSequenceNumber, Answer::HighestSequenceNumber(Ok(_))) => true,
            _ => false,
        }
    }

    /// Takes the answer to the action that the pipeline asked for last and
    /// says what to do next. Where the answer calls for the records of the
    /// emitted events, they are marked with a fresh identifier and the time
    /// that the clock reads now.
    pub fn step<F, X, C, S>(self, def: &AggregateDefinition<F, X, C, S>, answer: Answer<P>) -> (r:
        (Self, Action))
        ensures
            exists|stamp: StampResult|
                (r.0@, r.1@) == #[trigger] step_model(def@, self@, answer@, stamp),
            !needs_stamp(self@, answer@) ==> forall|stamp: StampResult|
                (r.0@, r.1@) == #[trigger] step_model(def@, self@, answer@, stamp),
    {
        let stamp = if self.wants_stamp(&answer) {
            Stamp::now()
        } else {
            Err(CommandError::OutOfTurn)
        };
        let ghost used = stamp_view(stamp);
        let r = self.step_stamped(def, answer, stamp);
        assert((r.0@, r.1@) == step_model(def@, self@, answer@, used));
        r
    }
}

/// Begins to handle `command` on the aggregate `aggregate_definition`, from
/// the empty projection `empty_projection`: the pipeline, and the first
/// outside work that it asks for.
pub fn handle_command<P, F, X, C, S>(
    command: &Command,
    aggregate_definition: &AggregateDefinition<F, X, C, S>,
    empty_projection: P,
) -> (r: (CommandPipeline<P>, Action))
    ensures
        (r.0@, r.1@) == start_model(aggregate_definition@, command@, empty_projection),
{
    CommandPipeline::start(aggregate_definition, command, empty_projection)
}

} // verus!
