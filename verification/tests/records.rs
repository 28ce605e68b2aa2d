use dendrite::error::{CommandError, HandlerError};
use dendrite::message::{clone_payload, Event, SerializedObject};
use dendrite::outcome::{
    emit, emit_applicable, emit_applicable_events_and_response, emit_events,
    emit_events_and_response, strip_events, wrap, EmitApplicableEventsAndResponse,
};
use dendrite::store::{event_records, to_timestamp, Stamp};

fn text(s: &str) -> String {
    s.to_string()
}

fn stamp() -> Stamp {
    Stamp { message_identifier: text("batch-1"), timestamp: 1_600_000_000_123 }
}

#[test]
fn emit_events_is_empty() {
    let e = emit_events();
    assert!(e.events.is_empty());
    assert_eq!(e.response, None);
}

#[test]
fn emit_appends_an_envelope() {
    let mut e = emit_events();
    emit(&mut e, "GreetedEvent", vec![1, 2]);
    emit(&mut e, "StoppedEvent", vec![]);
    assert_eq!(
        e.events,
        vec![
            SerializedObject { object_type: text("GreetedEvent"), revision: text(""), data: vec![1, 2] },
            SerializedObject { object_type: text("StoppedEvent"), revision: text(""), data: vec![] },
        ]
    );
    assert_eq!(e.response, None);
}

#[test]
fn emit_events_and_response_wraps_the_response() {
    let e = emit_events_and_response("Acknowledgement", vec![10, 3, 1, 2, 3]);
    assert!(e.events.is_empty());
    assert_eq!(
        e.response,
        Some(SerializedObject {
            object_type: text("Acknowledgement"),
            revision: text(""),
            data: vec![10, 3, 1, 2, 3],
        })
    );
}

#[test]
fn emit_applicable_keeps_order_and_response() {
    let mut e = emit_applicable_events_and_response("Acknowledgement", vec![7]);
    assert!(e.events.is_empty());
    emit_applicable(&mut e, "GreetedEvent", vec![1]);
    emit_applicable(&mut e, "RecordedEvent", vec![2]);
    assert_eq!(e.events, vec![(text("GreetedEvent"), vec![1]), (text("RecordedEvent"), vec![2])]);
    assert_eq!(e.response, Some(wrap("Acknowledgement", vec![7])));
}

#[test]
fn strip_events_keeps_only_the_response() {
    let mut e = emit_applicable_events_and_response("Acknowledgement", vec![7]);
    emit_applicable(&mut e, "GreetedEvent", vec![1]);
    let stripped = strip_events(&e);
    assert!(stripped.events.is_empty());
    assert_eq!(stripped.response, Some(wrap("Acknowledgement", vec![7])));
    let none = strip_events(&EmitApplicableEventsAndResponse { events: vec![], response: None });
    assert_eq!(none.response, None);
}

#[test]
fn clone_payload_copies() {
    let p = Some(wrap("T", vec![1, 2, 3]));
    assert_eq!(clone_payload(&p), p);
    assert_eq!(clone_payload(&None), None);
    assert_eq!(wrap("T", vec![4]).clone(), wrap("T", vec![4]));
}

#[test]
fn records_one_event_after_the_highest_number() {
    let events = vec![(text("GreetedEvent"), vec![10, 2, 104, 105])];
    let built = event_records(&text("Greeting"), &text("xxx"), &events, 41, &stamp()).unwrap();
    assert_eq!(
        built,
        vec![Event {
            message_identifier: text("batch-1"),
            timestamp: 1_600_000_000_123,
            aggregate_identifier: text("xxx"),
            aggregate_sequence_number: 42,
            aggregate_type: text("Greeting"),
            payload: Some(SerializedObject {
                object_type: text("GreetedEvent"),
                revision: text(""),
                data: vec![10, 2, 104, 105],
            }),
            meta_data: vec![],
            snapshot: false,
        }]
    );
}

#[test]
fn records_number_a_batch_without_gaps() {
    let events = vec![(text("A"), vec![1]), (text("B"), vec![2]), (text("C"), vec![3])];
    let built = event_records(&text("Counter"), &text("id-9"), &events, -1, &stamp()).unwrap();
    let numbers: Vec<i64> = built.iter().map(|e| e.aggregate_sequence_number).collect();
    assert_eq!(numbers, vec![0, 1, 2]);
    let kinds: Vec<&str> =
        built.iter().map(|e| e.payload.as_ref().unwrap().object_type.as_str()).collect();
    assert_eq!(kinds, vec!["A", "B", "C"]);
    for e in &built {
        assert_eq!(e.message_identifier, "batch-1");
        assert_eq!(e.timestamp, 1_600_000_000_123);
        assert_eq!(e.aggregate_identifier, "id-9");
        assert_eq!(e.aggregate_type, "Counter");
        assert!(!e.snapshot);
        assert!(e.meta_data.is_empty());
    }
}

#[test]
fn records_of_no_events_are_none() {
    let built = event_records(&text("Greeting"), &text("xxx"), &vec![], i64::MAX, &stamp());
    assert_eq!(built, Ok(vec![]));
}

#[test]
fn records_stop_where_the_numbers_end() {
    let one = vec![(text("A"), vec![])];
    let two = vec![(text("A"), vec![]), (text("B"), vec![])];
    let built = event_records(&text("Greeting"), &text("xxx"), &one, i64::MAX - 1, &stamp());
    assert_eq!(built.unwrap()[0].aggregate_sequence_number, i64::MAX);
    let built = event_records(&text("Greeting"), &text("xxx"), &one, i64::MAX, &stamp());
    assert_eq!(built, Err(CommandError::SequenceExhausted));
    let built = event_records(&text("Greeting"), &text("xxx"), &two, i64::MAX - 1, &stamp());
    assert_eq!(built, Err(CommandError::SequenceExhausted));
}

#[test]
fn stamp_now_reads_a_plausible_time_and_a_fresh_identifier() {
    let a = Stamp::now().unwrap();
    let b = Stamp::now().unwrap();
    // After 2020-01-01 and before 2200-01-01, in milliseconds.
    assert!(a.timestamp > 1_577_836_800_000);
    assert!(a.timestamp < 7_258_118_400_000);
    assert!(b.timestamp >= a.timestamp);
    assert_ne!(a.message_identifier, b.message_identifier);
    assert!(!a.message_identifier.is_empty());
}

#[test]
fn error_messages() {
    assert_eq!(
        CommandError::MissingPayload(text("GreetCommand")).message(),
        "No payload data for: \"GreetCommand\""
    );
    assert_eq!(CommandError::UnknownCommand.message(), "Could not find aggregate handler");
    assert_eq!(
        CommandError::NoCommandHandler(text("GreetCommand")).message(),
        "No handler for: \"GreetCommand\""
    );
    assert_eq!(
        CommandError::MissingSourcingHandler(text("GreetedEvent")).message(),
        "Missing sourcing handler for \"GreetedEvent\""
    );
    assert_eq!(CommandError::MissingAggregateIdentifier.message(), "Missing aggregate identifier");
    assert_eq!(CommandError::Decode(text("bad wire type")).message(), "bad wire type");
    assert_eq!(CommandError::Handler(text("refused")).message(), "refused");
    assert_eq!(CommandError::Store(text("unavailable")).message(), "unavailable");
    assert_eq!(CommandError::Clock(text("too early")).message(), "too early");
    assert_eq!(CommandError::SequenceExhausted.message(), "Aggregate sequence numbers exhausted");
    assert_eq!(CommandError::OutOfTurn.message(), "Answer out of turn");
}

#[test]
fn error_message_quotes_and_escapes_the_name() {
    assert_eq!(
        CommandError::MissingPayload(text("a\"b\\c\n")).message(),
        "No payload data for: \"a\\\"b\\\\c\\n\""
    );
    assert_eq!(CommandError::NoCommandHandler(text("")).message(), "No handler for: \"\"");
}

#[test]
fn handler_errors_become_command_errors() {
    assert_eq!(
        CommandError::of_handler(HandlerError::Decode(text("d"))),
        CommandError::Decode(text("d"))
    );
    assert_eq!(
        CommandError::of_handler(HandlerError::Failed(text("f"))),
        CommandError::Handler(text("f"))
    );
    let e = CommandError::MissingSourcingHandler(text("T"));
    assert_eq!(e.clone(), e);
}

#[test]
fn stamp_from_a_reading_of_the_clock() {
    assert_eq!(
        Stamp::from_reading(text("id-1"), Ok(1_600_000_000_123)),
        Ok(Stamp { message_identifier: text("id-1"), timestamp: 1_600_000_000_123 })
    );
    assert_eq!(
        Stamp::from_reading(text("id-2"), Ok(0)),
        Ok(Stamp { message_identifier: text("id-2"), timestamp: 0 })
    );
    assert_eq!(
        Stamp::from_reading(text("id-3"), Ok(i64::MAX as u128)),
        Ok(Stamp { message_identifier: text("id-3"), timestamp: i64::MAX })
    );
    assert_eq!(
        Stamp::from_reading(text("id-4"), Err(text("second time provided was later than self"))),
        Err(CommandError::Clock(text("second time provided was later than self")))
    );
}

#[test]
fn timestamp_keeps_the_low_bits_of_a_count_that_is_too_large() {
    assert_eq!(to_timestamp(42), 42);
    assert_eq!(to_timestamp(i64::MAX as u128 + 1), i64::MIN);
    assert_eq!(to_timestamp(u64::MAX as u128), -1);
    assert_eq!(to_timestamp((1u128 << 64) + 7), 7);
}
