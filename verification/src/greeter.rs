//! What the greeter example computes around the command pipeline: its
//! default reply, the greetings in an aggregate's history, the document
//! identifier of a greeting in the search index, and the tracking token
//! read back from the index.

use crate::message::{Event, EventView};
use vstd::prelude::*;
use vstd::string::*;

verus! {

/// The SHA-256 digest of `data`.
pub uninterp spec fn sha256_digest(data: Seq<u8>) -> Seq<u8>;

/// The standard base64 text of `data`, with padding.
pub uninterp spec fn base64_text(data: Seq<u8>) -> Seq<char>;

/// Trusted: the SHA-256 digest of `data`, by `sha2::Sha256::digest`. The
/// result is named, not described.
#[verifier::external_body]
fn sha256(data: &[u8]) -> (r: Vec<u8>)
    ensures
        r@ == sha256_digest(data@),
{
    <sha2::Sha256 as sha2::Digest>::digest(data).to_vec()
}

/// Trusted: the base64 text of `data`, by `base64::encode`, which uses the
/// standard alphabet with padding. The result is named, not described.
#[verifier::external_body]
fn base64_encode(data: &[u8]) -> (r: String)
    ensures
        r@ == base64_text(data@),
{
    base64::encode(data)
}

/// The identifier under which the greeting `message` is indexed: the base64
/// text of the SHA-256 digest of its UTF-8 bytes. Equal greetings share one
/// document.
pub fn greeting_document_id(message: &str) -> (r: String)
    ensures
        r@ == base64_text(sha256_digest(message.spec_bytes())),
{
    let digest = sha256(message.as_bytes());
    base64_encode(digest.as_slice())
}

/// The aggregate that holds all greetings.
pub fn greeting_aggregate_identifier() -> (r: String)
    ensures
        r@ == "xxx"@,
{
    String::from_str("xxx")
}

/// The reply to a greeting for which the command handler gave no response.
pub fn default_acknowledgement(message: &str) -> (r: String)
    ensures
        r@ == "Hello "@ + message@ + "!"@,
{
    String::from_str("Hello ").concat(message).concat("!")
}

/// The greeting that closes the stream of greetings.
pub fn end_of_stream() -> (r: String)
    ensures
        r@ == "End of stream -oo-"@,
{
    String::from_str("End of stream -oo-")
}

/// The bodies of the events of type `GreetedEvent` among `events`, in
/// order.
pub open spec fn greeted(events: Seq<EventView>) -> Seq<Seq<u8>>
    decreases events.len(),
{
    if events.len() == 0 {
        Seq::empty()
    } else {
        match events.last().payload {
            Some(payload) => if payload.object_type == "GreetedEvent"@ {
                greeted(events.drop_last()).push(payload.data)
            } else {
                greeted(events.drop_last())
            },
            None => greeted(events.drop_last()),
        }
    }
}

/// What a list of bodies holds.
pub open spec fn bodies(list: Seq<Vec<u8>>) -> Seq<Seq<u8>> {
    Seq::new(list.len(), |i: int| list[i]@)
}

/// The encoded greetings in a history: the bodies of its events of type
/// `GreetedEvent`, in order.
pub fn greeted_payloads(events: &Vec<Event>) -> (r: Vec<Vec<u8>>)
    ensures
        bodies(r@) == greeted(events.deep_view()),
{
    let wanted = String::from_str("GreetedEvent");
    let mut r: Vec<Vec<u8>> = Vec::new();
    let n = events.len();
    let mut i: usize = 0;
    assert(events.deep_view().take(0) =~= Seq::<EventView>::empty());
    assert(bodies(r@) =~= Seq::<Seq<u8>>::empty());
    while i < n
        invariant
            n == events@.len(),
            0 <= i <= n,
            wanted@ == "GreetedEvent"@,
            bodies(r@) == greeted(events.deep_view().take(i as int)),
        decreases n - i,
    {
        let ghost before = bodies(r@);
        proof {
            let upto = events.deep_view().take(i + 1);
            assert(upto.drop_last() =~= events.deep_view().take(i as int));
            assert(upto.last() == events@[i as int]@);
        }
        match &events[i].payload {
            Some(payload) => {
                if payload.object_type == wanted {
                    r.push(payload.data.clone());
                    assert(bodies(r@) =~= before.push(payload.data@));
                }
            },
            None => {},
        }
        i += 1;
    }
    assert(events.deep_view().take(n as int) =~= events.deep_view());
    r
}

/// The token field of the tracking document, as the index gave it back.
#[derive(Clone, Copy, Debug, PartialEq, Eq)]
pub enum TokenField {
    /// The document has no such field, or the field is no number.
    Absent,
    /// The field is a number: its value where that is a 64-bit signed
    /// integer, else none.
    Number(Option<i64>),
}

/// The tracking document holds a number that is no 64-bit signed integer.
#[derive(Clone, Copy, Debug, PartialEq, Eq)]
pub struct TokenNotAnInteger;

/// The token before the first event.
pub const NO_TOKEN: i64 = -1;

/// The tracking token that the stored field stands for.
pub open spec fn token_of(field: TokenField) -> Result<i64, TokenNotAnInteger> {
    match field {
        TokenField::Absent => Ok(NO_TOKEN),
        TokenField::Number(Some(token)) => Ok(token),
        TokenField::Number(None) => Err(TokenNotAnInteger),
    }
}

/// The tracking token to resume from: the stored integer, or the token
/// before the first event where none is stored. A stored number that is no
/// 64-bit signed integer is refused.
pub fn token_from_source(field: TokenField) -> (r: Result<i64, TokenNotAnInteger>)
    ensures
        r == token_of(field),
{
    match field {
        TokenField::Absent => Ok(NO_TOKEN),
        TokenField::Number(Some(token)) => Ok(token),
        TokenField::Number(None) => Err(TokenNotAnInteger),
    }
}

impl TokenNotAnInteger {
    /// The text of this error.
    pub fn message(&self) -> (r: String)
        ensures
            r@ == "Token is not an i64"@,
    {
        String::from_str("Token is not an i64")
    }
}

} // verus!
