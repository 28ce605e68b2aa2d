//! What the worker does with each item of the inbound stream, and how it
//! finds the aggregate that handles a command.

use crate::aggregate::{
    by_name, last_handler, lemma_last_handler, lemma_routed_all, routed_all, table_view,
    AggregateHandle, AggregateRegistry, RoutingTable, TheAggregateRegistry,
};
use crate::outcome::result_view;
use crate::stream::AxonCommandResult;
use crate::error::{CommandError, CommandErrorView};
use crate::message::{Command, CommandView};
use vstd::prelude::*;

verus! {

/// The name of the aggregate that handles `command`. A command without a
/// payload is refused first, as `MissingPayload`; then, as `UnknownCommand`,
/// a command whose name the table does not route, or routes to an aggregate
/// that is not among `aggregates`.
pub open spec fn resolved(
    command: CommandView,
    table: Map<Seq<char>, Seq<char>>,
    aggregates: Set<Seq<char>>,
) -> Result<Seq<char>, CommandErrorView> {
    if command.payload is None {
        Err(CommandErrorView::MissingPayload(command.name))
    } else if !table.contains_key(command.name) {
        Err(CommandErrorView::UnknownCommand)
    } else if !aggregates.contains(table[command.name]) {
        Err(CommandErrorView::UnknownCommand)
    } else {
        Ok(table[command.name])
    }
}

/// Finds the aggregate that handles `command`, by the routing table and the
/// registry.
pub fn find_aggregate<'a, A: AggregateHandle>(
    command: &Command,
    command_to_aggregate_mapping: &RoutingTable,
    aggregate_registry: &'a TheAggregateRegistry<A>,
) -> (r: Result<&'a A, CommandError>)
    ensures
        match resolved(
            command@,
            table_view(*command_to_aggregate_mapping),
            by_name(*aggregate_registry).dom(),
        ) {
            Ok(name) => r matches Ok(aggregate) && *aggregate == by_name(*aggregate_registry)[name],
            Err(e) => r matches Err(error) && error@ == e,
        },
{
    if command.payload.is_none() {
        return Err(CommandError::MissingPayload(command.name.clone()));
    }
    match command_to_aggregate_mapping.get(&command.name) {
        Some(aggregate_name) => match aggregate_registry.get(aggregate_name) {
            Some(aggregate) => Ok(aggregate),
            None => Err(CommandError::UnknownCommand),
        },
        None => Err(CommandError::UnknownCommand),
    }
}

/// Routing totality, from the registry to the worker. With the table that
/// the registry builds from nothing, a command with a payload goes to the
/// last aggregate that handles commands of its name, and is refused as
/// `UnknownCommand` where no aggregate does, since the table then has no
/// entry for it.
pub proof fn lemma_routing_totality(
    aggregates: Seq<Seq<char>>,
    commands: Seq<Seq<Seq<char>>>,
    held: Set<Seq<char>>,
    command: CommandView,
)
    requires
        aggregates.len() == commands.len(),
        forall|i: int| 0 <= i < aggregates.len() ==> held.contains(#[trigger] aggregates[i]),
        command.payload is Some,
    ensures
        ({
            let table = routed_all(Map::empty(), aggregates, commands);
            let last = last_handler(commands, command.name);
            &&& last >= 0 ==> table.contains_key(command.name) && table[command.name]
                == aggregates[last] && resolved(command, table, held) == Ok::<
                Seq<char>,
                CommandErrorView,
            >(aggregates[last])
            &&& last < 0 ==> !table.contains_key(command.name) && resolved(command, table, held)
                == Err::<Seq<char>, CommandErrorView>(CommandErrorView::UnknownCommand)
        }),
{
    lemma_routed_all(Map::empty(), aggregates, commands, command.name);
    lemma_last_handler(commands, command.name);
}

/// One item of the inbound stream.
#[derive(Debug)]
pub enum Inbound {
    /// A command to handle.
    Command(Command),
    /// An instruction that is no command.
    Other,
    /// The stream has ended.
    End,
    /// Reading the stream failed; the text says how.
    Failure(String),
}

/// What the worker does next.
#[derive(Debug)]
pub enum Move<'a, A> {
    /// Handle the command on this aggregate, and queue the result.
    Handle { aggregate: &'a A, command: Command },
    /// Queue this result: the command fails before it reaches an aggregate.
    Reply(AxonCommandResult),
    /// Read on.
    Ignore,
    /// Leave the loop: there is nothing more to read.
    Stop,
    /// Leave the loop and fail with this text.
    Fail(String),
}

/// Decides what to do with one item of the inbound stream. A command goes
/// to its aggregate, or straight to the queue as a failure where it has no
/// payload or no aggregate; an item that is no command is passed over; the
/// end of the stream ends the worker, and a failure to read fails it.
pub fn on_inbound<'a, A: AggregateHandle>(
    inbound: Inbound,
    command_to_aggregate_mapping: &RoutingTable,
    aggregate_registry: &'a TheAggregateRegistry<A>,
) -> (r: Move<'a, A>)
    ensures
        match inbound {
            Inbound::Command(given) => match resolved(
                given@,
                table_view(*command_to_aggregate_mapping),
                by_name(*aggregate_registry).dom(),
            ) {
                Ok(name) => r matches Move::Handle { aggregate, command } && *aggregate == by_name(
                    *aggregate_registry,
                )[name] && command == given,
                Err(e) => r matches Move::Reply(result) && result.message_identifier@
                    == given.message_identifier@ && result_view(result.result) == Err::<
                    Option<crate::outcome::EmittedView>,
                    CommandErrorView,
                >(e),
            },
            Inbound::Other => r is Ignore,
            Inbound::End => r is Stop,
            Inbound::Failure(text) => r matches Move::Fail(said) && said == text,
        },
{
    match inbound {
        Inbound::Command(command) => {
            match find_aggregate(&command, command_to_aggregate_mapping, aggregate_registry) {
                Ok(aggregate) => Move::Handle { aggregate, command },
                Err(e) => Move::Reply(
                    AxonCommandResult { message_identifier: command.message_identifier, result: Err(e) },
                ),
            }
        },
        Inbound::Other => Move::Ignore,
        Inbound::End => Move::Stop,
        Inbound::Failure(text) => Move::Fail(text),
    }
}

} // verus!
