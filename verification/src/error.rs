//! The ways in which handling a command fails.

use vstd::prelude::*;
use vstd::string::*;

verus! {

/// The text that `{:?}` gives for a string: the string in double quotes, with
/// escapes.
pub uninterp spec fn debug_text(s: Seq<char>) -> Seq<char>;

/// Trusted: formats `s` with `{:?}`, the `Debug` form of `str` in std. The
/// result is named, not described.
#[verifier::external_body]
fn quoted(s: &str) -> (r: String)
    ensures
        r@ == debug_text(s@),
{
    format!("{:?}", s)
}

/// Why a handler did not produce a value.
#[derive(Debug, PartialEq, Eq)]
pub enum HandlerError {
    /// The bytes do not have the shape that the handler expects.
    Decode(String),
    /// The handler itself refused.
    Failed(String),
}

/// What a [`HandlerError`] holds.
pub enum HandlerErrorView {
    Decode(Seq<char>),
    Failed(Seq<char>),
}

impl View for HandlerError {
    type V = HandlerErrorView;

    open spec fn view(&self) -> HandlerErrorView {
        match self {
            HandlerError::Decode(m) => HandlerErrorView::Decode(m@),
            HandlerError::Failed(m) => HandlerErrorView::Failed(m@),
        }
    }
}

/// Why a command was not handled.
#[derive(Debug, PartialEq, Eq)]
pub enum CommandError {
    /// The command of this name carries no payload.
    MissingPayload(String),
    /// No aggregate is known for the command's name.
    UnknownCommand,
    /// The aggregate has no handler for the command of this name.
    NoCommandHandler(String),
    /// The history holds an event of this type, for which the aggregate has
    /// no sourcing handler.
    MissingSourcingHandler(String),
    /// Neither the command nor its response names an aggregate.
    MissingAggregateIdentifier,
    /// A payload did not have the shape that its handler expects.
    Decode(String),
    /// A handler refused.
    Handler(String),
    /// The event store did not answer a request.
    Store(String),
    /// The clock reads a time before the Unix epoch.
    Clock(String),
    /// The aggregate's sequence numbers are used up.
    SequenceExhausted,
    /// The pipeline was handed an answer that it had not asked for.
    OutOfTurn,
}

/// What a [`CommandError`] holds.
pub enum CommandErrorView {
    MissingPayload(Seq<char>),
    UnknownCommand,
    NoCommandHandler(Seq<char>),
    MissingSourcingHandler(Seq<char>),
    MissingAggregateIdentifier,
    Decode(Seq<char>),
    Handler(Seq<char>),
    Store(Seq<char>),
    Clock(Seq<char>),
    SequenceExhausted,
    OutOfTurn,
}

impl View for CommandError {
    type V = CommandErrorView;

    open spec fn view(&self) -> CommandErrorView {
        match self {
            CommandError::MissingPayload(n) => CommandErrorView::MissingPayload(n@),
            CommandError::UnknownCommand => CommandErrorView::UnknownCommand,
            CommandError::NoCommandHandler(n) => CommandErrorView::NoCommandHandler(n@),
            CommandError::MissingSourcingHandler(t) => CommandErrorView::MissingSourcingHandler(
                t@,
            ),
            CommandError::MissingAggregateIdentifier => CommandErrorView::MissingAggregateIdentifier,
            CommandError::Decode(m) => CommandErrorView::Decode(m@),
            CommandError::Handler(m) => CommandErrorView::Handler(m@),
            CommandError::Store(m) => CommandErrorView::Store(m@),
            CommandError::Clock(m) => CommandErrorView::Clock(m@),
            CommandError::SequenceExhausted => CommandErrorView::SequenceExhausted,
            CommandError::OutOfTurn => CommandErrorView::OutOfTurn,
        }
    }
}

/// The error that a handler's failure becomes.
pub open spec fn from_handler(e: HandlerErrorView) -> CommandErrorView {
    match e {
        HandlerErrorView::Decode(m) => CommandErrorView::Decode(m),
        HandlerErrorView::Failed(m) => CommandErrorView::Handler(m),
    }
}

/// The text that a failed response carries for `e`.
pub open spec fn message_text(e: CommandErrorView) -> Seq<char> {
    match e {
        CommandErrorView::MissingPayload(n) => "No payload data for: "@ + debug_text(n),
        CommandErrorView::UnknownCommand => "Could not find aggregate handler"@,
        CommandErrorView::NoCommandHandler(n) => "No handler for: "@ + debug_text(n),
        CommandErrorView::MissingSourcingHandler(t) => "Missing sourcing handler for "@
            + debug_text(t),
        CommandErrorView::MissingAggregateIdentifier => "Missing aggregate identifier"@,
        CommandErrorView::Decode(m) => m,
        CommandErrorView::Handler(m) => m,
        CommandErrorView::Store(m) => m,
        CommandErrorView::Clock(m) => m,
        CommandErrorView::SequenceExhausted => "Aggregate sequence numbers exhausted"@,
        CommandErrorView::OutOfTurn => "Answer out of turn"@,
    }
}

impl CommandError {
    /// The error that a handler's failure becomes.
    pub fn of_handler(e: HandlerError) -> (r: CommandError)
        ensures
            r@ == from_handler(e@),
    {
        match e {
            HandlerError::Decode(m) => CommandError::Decode(m),
            HandlerError::Failed(m) => CommandError::Handler(m),
        }
    }

    /// The human-readable text of this error.
    pub fn message(&self) -> (r: String)
        ensures
            r@ == message_text(self@),
    {
        match self {
            CommandError::MissingPayload(n) => message_about(
                "No payload data for: ",
                quoted(n.as_str()).as_str(),
            ),
            CommandError::UnknownCommand => String::from_str("Could not find aggregate handler"),
            CommandError::NoCommandHandler(n) => message_about(
                "No handler for: ",
                quoted(n.as_str()).as_str(),
            ),
            CommandError::MissingSourcingHandler(t) => message_about(
                "Missing sourcing handler for ",
                quoted(t.as_str()).as_str(),
            ),
            CommandError::MissingAggregateIdentifier => String::from_str(
                "Missing aggregate identifier",
            ),
            CommandError::Decode(m) => m.clone(),
            CommandError::Handler(m) => m.clone(),
            CommandError::Store(m) => m.clone(),
            CommandError::Clock(m) => m.clone(),
            CommandError::SequenceExhausted => String::from_str(
                "Aggregate sequence numbers exhausted",
            ),
            CommandError::OutOfTurn => String::from_str("Answer out of turn"),
        }
    }
}

/// The text of an error about a name: what the error says, and then the
/// name as it is to be shown.
pub fn message_about(saying: &str, shown_name: &str) -> (r: String)
    ensures
        r@ == saying@ + shown_name@,
{
    String::from_str(saying).concat(shown_name)
}

impl Clone for CommandError {
    fn clone(&self) -> (r: Self)
        ensures
            r@ == self@,
    {
        match self {
            CommandError::MissingPayload(n) => CommandError::MissingPayload(n.clone()),
            CommandError::UnknownCommand => CommandError::UnknownCommand,
            CommandError::NoCommandHandler(n) => CommandError::NoCommandHandler(n.clone()),
            CommandError::MissingSourcingHandler(t) => CommandError::MissingSourcingHandler(
                t.clone(),
            ),
            CommandError::MissingAggregateIdentifier => CommandError::MissingAggregateIdentifier,
            CommandError::Decode(m) => CommandError::Decode(m.clone()),
            CommandError::Handler(m) => CommandError::Handler(m.clone()),
            CommandError::Store(m) => CommandError::Store(m.clone()),
            CommandError::Clock(m) => CommandError::Clock(m.clone()),
            CommandError::SequenceExhausted => CommandError::SequenceExhausted,
            CommandError::OutOfTurn => CommandError::OutOfTurn,
        }
    }
}

} // verus!
