use dendrite::greeter::{
    default_acknowledgement, end_of_stream, greeted_payloads, greeting_aggregate_identifier,
    greeting_document_id, token_from_source, TokenField, TokenNotAnInteger, NO_TOKEN,
};
use dendrite::message::{Event, SerializedObject};

fn event(kind: Option<&str>, data: Vec<u8>) -> Event {
    Event {
        message_identifier: "m".to_string(),
        timestamp: 0,
        aggregate_identifier: "xxx".to_string(),
        aggregate_sequence_number: 0,
        aggregate_type: "Greeting".to_string(),
        payload: kind.map(|k| SerializedObject {
            object_type: k.to_string(),
            revision: String::new(),
            data,
        }),
        meta_data: vec![],
        snapshot: false,
    }
}

#[test]
fn document_id_is_the_base64_of_the_sha256() {
    assert_eq!(greeting_document_id("hi"), "j0NDRmSPa5bfid2pAcUXaxCm2Dlh3TwayItZstwyeqQ=");
    assert_eq!(greeting_document_id(""), "47DEQpj8HBSa+/TImW+5JCeuQeRkm5NMpJWZG3hSuFU=");
    assert_eq!(
        greeting_document_id("Hello World"),
        "pZGm1Av0IEBKARczz7exkNYsZb8LzaMrV7J32a2fFG4="
    );
    assert_eq!(greeting_document_id("héllo"), "PEhZHY0JikU49eAT389AbpSOrE0yd7EL9hTildYGgXk=");
}

#[test]
fn equal_greetings_share_a_document() {
    assert_eq!(greeting_document_id("same"), greeting_document_id("same"));
    assert_ne!(greeting_document_id("same"), greeting_document_id("Same"));
}

#[test]
fn default_reply_greets_back() {
    assert_eq!(default_acknowledgement("hi"), "Hello hi!");
    assert_eq!(default_acknowledgement(""), "Hello !");
    assert_eq!(greeting_aggregate_identifier(), "xxx");
    assert_eq!(end_of_stream(), "End of stream -oo-");
}

#[test]
fn greetings_are_picked_from_the_history_in_order() {
    let history = vec![
        event(Some("GreetedEvent"), vec![1]),
        event(Some("StoppedEvent"), vec![2]),
        event(None, vec![]),
        event(Some("GreetedEvent"), vec![3, 4]),
        event(Some("greetedevent"), vec![5]),
        event(Some("GreetedEvent"), vec![]),
    ];
    assert_eq!(greeted_payloads(&history), vec![vec![1], vec![3, 4], vec![]]);
    assert!(greeted_payloads(&vec![]).is_empty());
}

#[test]
fn tracking_token() {
    assert_eq!(token_from_source(TokenField::Number(Some(42))), Ok(42));
    assert_eq!(token_from_source(TokenField::Number(Some(-7))), Ok(-7));
    assert_eq!(token_from_source(TokenField::Absent), Ok(-1));
    assert_eq!(NO_TOKEN, -1);
    assert_eq!(token_from_source(TokenField::Number(None)), Err(TokenNotAnInteger));
    assert_eq!(TokenNotAnInteger.message(), "Token is not an i64");
}
