use dendrite::aggregate::{
    create_aggregate_definition, empty_aggregate_registry, empty_handler_registry,
    AggregateDefinition, AggregateHandle, AggregateRegistry, RoutingTable, TheAggregateRegistry,
    TheHandlerRegistry,
};
use dendrite::error::CommandError;
use dendrite::message::{Command, SerializedObject};
use dendrite::name_map::NameMap;
use dendrite::worker::{find_aggregate, on_inbound, Inbound, Move};

type Definition = AggregateDefinition<u8, u8, u8, u8>;

fn text(s: &str) -> String {
    s.to_string()
}

fn definition(name: &str, commands: &[&str]) -> Definition {
    let mut handlers: TheHandlerRegistry<u8> = empty_handler_registry();
    for (i, c) in commands.iter().enumerate() {
        handlers.insert(text(c), i as u8);
    }
    create_aggregate_definition(
        text(name),
        0,
        empty_handler_registry(),
        handlers,
        empty_handler_registry(),
    )
}

fn command(name: &str, with_payload: bool) -> Command {
    Command {
        name: text(name),
        message_identifier: text("m"),
        payload: if with_payload {
            Some(SerializedObject { object_type: text(name), revision: text(""), data: vec![] })
        } else {
            None
        },
    }
}

fn routing(registry: &TheAggregateRegistry<Definition>) -> (Vec<String>, RoutingTable) {
    let mut commands = Vec::new();
    let mut table: RoutingTable = NameMap::new();
    registry.register(&mut commands, &mut table);
    (commands, table)
}

#[test]
fn empty_registry_holds_nothing() {
    let registry: TheHandlerRegistry<u32> = empty_handler_registry();
    assert_eq!(registry.len(), 0);
    assert!(registry.get(&text("GreetCommand")).is_none());
    assert!(!registry.contains(&text("GreetCommand")));
    assert!(registry.names_vec().is_empty());
}

#[test]
fn insert_then_get_returns_the_handler() {
    let mut registry: TheHandlerRegistry<u32> = empty_handler_registry();
    registry.insert(text("GreetCommand"), 1);
    registry.insert(text("RecordCommand"), 2);
    assert_eq!(registry.get(&text("GreetCommand")), Some(&1));
    assert_eq!(registry.get(&text("RecordCommand")), Some(&2));
    assert_eq!(registry.get(&text("StopCommand")), None);
    assert!(registry.contains(&text("RecordCommand")));
    assert_eq!(registry.len(), 2);
    assert_eq!(registry.find(&text("RecordCommand")), Some(1));
    assert_eq!(registry.find(&text("StopCommand")), None);
}

#[test]
fn registering_a_name_again_replaces_the_handler_and_moves_it_last() {
    let mut registry: TheHandlerRegistry<u32> = empty_handler_registry();
    registry.insert(text("A"), 1);
    registry.insert(text("B"), 2);
    registry.insert(text("A"), 3);
    assert_eq!(registry.len(), 2);
    assert_eq!(registry.get(&text("A")), Some(&3));
    assert_eq!(registry.get(&text("B")), Some(&2));
    assert_eq!(registry.names_vec(), vec![text("B"), text("A")]);
    assert_eq!(registry.name_at(0), "B");
    assert_eq!(*registry.value_at(0), 2);
    assert_eq!(registry.name_at(1), "A");
    assert_eq!(*registry.value_at(1), 3);
    registry.insert(text("A"), 4);
    assert_eq!(registry.names_vec(), vec![text("B"), text("A")]);
    assert_eq!(registry.get(&text("A")), Some(&4));
}

#[test]
fn names_are_compared_whole() {
    let mut registry: TheHandlerRegistry<u32> = empty_handler_registry();
    registry.insert(text("Greet"), 1);
    assert!(registry.get(&text("GreetCommand")).is_none());
    assert!(registry.get(&text("greet")).is_none());
    assert!(registry.get(&text("")).is_none());
    registry.insert(text(""), 9);
    assert_eq!(registry.get(&text("")), Some(&9));
}

#[test]
fn definition_reports_its_name_and_commands() {
    let d = definition("Greeting", &["GreetCommand", "RecordCommand", "StopCommand"]);
    assert_eq!(d.name(), "Greeting");
    assert_eq!(
        d.command_names(),
        vec![text("GreetCommand"), text("RecordCommand"), text("StopCommand")]
    );
    assert_eq!(d.projection_name, "Greeting");
    assert_eq!(d.empty_projection, 0);
    assert!(d.aggregate_id_extractor_registry.names_vec().is_empty());
    assert!(d.sourcing_handler_registry.names_vec().is_empty());
}

#[test]
fn aggregate_registry_insert_and_get() {
    let mut registry: TheAggregateRegistry<Definition> = empty_aggregate_registry();
    assert!(registry.get(&text("Greeting")).is_none());
    registry.insert(definition("Greeting", &["GreetCommand"]));
    registry.insert(definition("Counter", &["Add"]));
    assert_eq!(registry.get(&text("Greeting")).unwrap().name(), "Greeting");
    assert_eq!(registry.get(&text("Counter")).unwrap().command_names(), vec![text("Add")]);
    assert!(registry.get(&text("Other")).is_none());
}

#[test]
fn aggregate_registry_insert_overwrites_by_name() {
    let mut registry: TheAggregateRegistry<Definition> = empty_aggregate_registry();
    registry.insert(definition("Greeting", &["GreetCommand"]));
    registry.insert(definition("Greeting", &["StopCommand"]));
    assert_eq!(registry.handlers.len(), 1);
    assert_eq!(
        registry.get(&text("Greeting")).unwrap().command_names(),
        vec![text("StopCommand")]
    );
    let (commands, table) = routing(&registry);
    assert_eq!(commands, vec![text("StopCommand")]);
    assert!(table.get(&text("GreetCommand")).is_none());
}

#[test]
fn register_routes_every_command_to_its_aggregate() {
    let mut registry: TheAggregateRegistry<Definition> = empty_aggregate_registry();
    registry.insert(definition("Greeting", &["GreetCommand", "RecordCommand"]));
    registry.insert(definition("Counter", &["Add"]));
    registry.insert(definition("Idle", &[]));
    let (commands, table) = routing(&registry);
    assert_eq!(commands, vec![text("GreetCommand"), text("RecordCommand"), text("Add")]);
    assert_eq!(table.get(&text("GreetCommand")), Some(&text("Greeting")));
    assert_eq!(table.get(&text("RecordCommand")), Some(&text("Greeting")));
    assert_eq!(table.get(&text("Add")), Some(&text("Counter")));
    assert_eq!(table.get(&text("StopCommand")), None);
    assert_eq!(table.len(), 3);
}

#[test]
fn register_appends_to_what_is_there() {
    let mut registry: TheAggregateRegistry<Definition> = empty_aggregate_registry();
    registry.insert(definition("Greeting", &["GreetCommand"]));
    let mut commands = vec![text("Earlier")];
    let mut table: RoutingTable = NameMap::new();
    table.insert(text("Earlier"), text("Old"));
    table.insert(text("GreetCommand"), text("Old"));
    registry.register(&mut commands, &mut table);
    assert_eq!(commands, vec![text("Earlier"), text("GreetCommand")]);
    assert_eq!(table.get(&text("Earlier")), Some(&text("Old")));
    assert_eq!(table.get(&text("GreetCommand")), Some(&text("Greeting")));
}

#[test]
fn command_of_two_aggregates_goes_to_the_later_one() {
    let mut registry: TheAggregateRegistry<Definition> = empty_aggregate_registry();
    registry.insert(definition("First", &["Shared", "OnlyFirst"]));
    registry.insert(definition("Second", &["Shared"]));
    let (commands, table) = routing(&registry);
    assert_eq!(commands, vec![text("Shared"), text("OnlyFirst"), text("Shared")]);
    assert_eq!(table.get(&text("Shared")), Some(&text("Second")));
    assert_eq!(table.get(&text("OnlyFirst")), Some(&text("First")));
}

#[test]
fn the_aggregate_registered_last_wins_a_shared_command() {
    let mut registry: TheAggregateRegistry<Definition> = empty_aggregate_registry();
    registry.insert(definition("First", &["Shared"]));
    registry.insert(definition("Second", &["Shared"]));
    registry.insert(definition("First", &["Shared", "More"]));
    let (commands, table) = routing(&registry);
    assert_eq!(commands, vec![text("Shared"), text("Shared"), text("More")]);
    assert_eq!(table.get(&text("Shared")), Some(&text("First")));
    assert_eq!(table.get(&text("More")), Some(&text("First")));
}

#[test]
fn find_aggregate_follows_the_routing_table() {
    let mut registry: TheAggregateRegistry<Definition> = empty_aggregate_registry();
    registry.insert(definition("Greeting", &["GreetCommand"]));
    registry.insert(definition("Counter", &["Add"]));
    let (_, table) = routing(&registry);
    let found = find_aggregate(&command("Add", true), &table, &registry).unwrap();
    assert_eq!(found.name(), "Counter");
    let found = find_aggregate(&command("GreetCommand", true), &table, &registry).unwrap();
    assert_eq!(found.name(), "Greeting");
}

#[test]
fn find_aggregate_reports_unknown_command() {
    let mut registry: TheAggregateRegistry<Definition> = empty_aggregate_registry();
    registry.insert(definition("Greeting", &["GreetCommand"]));
    let (_, table) = routing(&registry);
    let r = find_aggregate(&command("StopCommand", true), &table, &registry);
    assert_eq!(r.err(), Some(CommandError::UnknownCommand));
}

#[test]
fn find_aggregate_reports_unknown_command_for_a_lost_aggregate() {
    let registry: TheAggregateRegistry<Definition> = empty_aggregate_registry();
    let mut table: RoutingTable = NameMap::new();
    table.insert(text("GreetCommand"), text("Greeting"));
    let r = find_aggregate(&command("GreetCommand", true), &table, &registry);
    assert_eq!(r.err(), Some(CommandError::UnknownCommand));
}

#[test]
fn find_aggregate_asks_for_the_payload_first() {
    let mut registry: TheAggregateRegistry<Definition> = empty_aggregate_registry();
    registry.insert(definition("Greeting", &["GreetCommand"]));
    let (_, table) = routing(&registry);
    let r = find_aggregate(&command("GreetCommand", false), &table, &registry);
    assert_eq!(r.err(), Some(CommandError::MissingPayload(text("GreetCommand"))));
    let r = find_aggregate(&command("StopCommand", false), &table, &registry);
    assert_eq!(r.err(), Some(CommandError::MissingPayload(text("StopCommand"))));
}

#[test]
fn inbound_command_goes_to_its_aggregate() {
    let mut registry: TheAggregateRegistry<Definition> = empty_aggregate_registry();
    registry.insert(definition("Greeting", &["GreetCommand"]));
    let (_, table) = routing(&registry);
    match on_inbound(Inbound::Command(command("GreetCommand", true)), &table, &registry) {
        Move::Handle { aggregate, command: given } => {
            assert_eq!(aggregate.name(), "Greeting");
            assert_eq!(given, command("GreetCommand", true));
        }
        other => panic!("not handled: {:?}", other.type_of()),
    }
}

#[test]
fn inbound_command_without_aggregate_is_answered_at_once() {
    let mut registry: TheAggregateRegistry<Definition> = empty_aggregate_registry();
    registry.insert(definition("Greeting", &["GreetCommand"]));
    let (_, table) = routing(&registry);
    match on_inbound(Inbound::Command(command("StopCommand", true)), &table, &registry) {
        Move::Reply(result) => {
            assert_eq!(result.message_identifier, "m");
            assert_eq!(result.result, Err(CommandError::UnknownCommand));
        }
        other => panic!("not answered: {:?}", other.type_of()),
    }
    match on_inbound(Inbound::Command(command("GreetCommand", false)), &table, &registry) {
        Move::Reply(result) => {
            assert_eq!(result.result, Err(CommandError::MissingPayload(text("GreetCommand"))));
        }
        other => panic!("not answered: {:?}", other.type_of()),
    }
}

#[test]
fn other_inbound_items() {
    let registry: TheAggregateRegistry<Definition> = empty_aggregate_registry();
    let (_, table) = routing(&registry);
    assert!(matches!(on_inbound(Inbound::Other, &table, &registry), Move::Ignore));
    assert!(matches!(on_inbound(Inbound::End, &table, &registry), Move::Stop));
    match on_inbound(Inbound::Failure(text("Unavailable")), &table, &registry) {
        Move::Fail(said) => assert_eq!(said, "Unavailable"),
        other => panic!("not failed: {:?}", other.type_of()),
    }
}

trait TypeOf {
    fn type_of(&self) -> &'static str;
}

impl<'a> TypeOf for Move<'a, Definition> {
    fn type_of(&self) -> &'static str {
        match self {
            Move::Handle { .. } => "handle",
            Move::Reply(_) => "reply",
            Move::Ignore => "ignore",
            Move::Stop => "stop",
            Move::Fail(_) => "fail",
        }
    }
}
