//! The records that a handled command appends to the event store.

use crate::error::{CommandError, CommandErrorView};
use crate::ident::fresh_identifier;
use crate::message::{Event, EventView, SerializedObject};
use crate::outcome::{applicable_events, wrapped};
use vstd::prelude::*;

verus! {

#[verifier::external_type_specification]
#[verifier::external_body]
pub struct ExSystemTime(std::time::SystemTime);

#[verifier::external_type_specification]
#[verifier::external_body]
pub struct ExSystemTimeError(std::time::SystemTimeError);

/// Trusted: reads the system clock with `std::time::SystemTime::now`.
/// Nothing is claimed of the time read.
#[verifier::external_body]
fn system_now() -> (r: std::time::SystemTime) {
    std::time::SystemTime::now()
}

/// Trusted: the time from the Unix epoch to `now`, by
/// `std::time::SystemTime::duration_since`, which fails when `now` lies
/// before the epoch. Nothing is claimed of the result.
#[verifier::external_body]
fn since_epoch(now: &std::time::SystemTime) -> (r: Result<
    std::time::Duration,
    std::time::SystemTimeError,
>) {
    now.duration_since(std::time::UNIX_EPOCH)
}

/// Trusted: the whole milliseconds of `d`, by
/// `std::time::Duration::as_millis`. Nothing is claimed of the result.
#[verifier::external_body]
fn whole_millis(d: &std::time::Duration) -> (r: u128) {
    d.as_millis()
}

/// Trusted: the text that `std::time::SystemTimeError` displays. Nothing is
/// claimed of the text.
#[verifier::external_body]
fn clock_error_text(e: &std::time::SystemTimeError) -> (r: String) {
    format!("{}", e)
}

/// What the records of one batch share: a message identifier and the time
/// of the batch, in milliseconds since the Unix epoch.
#[derive(Debug, PartialEq, Eq)]
pub struct Stamp {
    pub message_identifier: String,
    pub timestamp: i64,
}

/// What a [`Stamp`] holds.
pub struct StampView {
    pub message_identifier: Seq<char>,
    pub timestamp: i64,
}

impl View for Stamp {
    type V = StampView;

    open spec fn view(&self) -> StampView {
        StampView { message_identifier: self.message_identifier@, timestamp: self.timestamp }
    }
}

/// A stamp, or the reason why none could be made.
pub type StampResult = Result<StampView, CommandErrorView>;

/// What an attempt to make a stamp holds.
pub open spec fn stamp_view(stamp: Result<Stamp, CommandError>) -> StampResult {
    match stamp {
        Ok(s) => Ok(s@),
        Err(e) => Err(e@),
    }
}

/// A count of milliseconds as a timestamp: the count itself where it is
/// less than two to the power of 63, and its low 64 bits read as a signed
/// number beyond that.
pub fn to_timestamp(millis: u128) -> (r: i64)
    ensures
        r == millis as i64,
        millis <= i64::MAX ==> r == millis,
{
    #[verifier::truncate]
    (millis as i64)
}

/// The stamp that an identifier and a reading of the clock make. The
/// reading is the time since the Unix epoch in whole milliseconds, or the
/// text of the clock's failure, which becomes a `Clock` error.
pub open spec fn stamp_of(message_identifier: Seq<char>, reading: Result<u128, Seq<char>>)
    -> StampResult {
    match reading {
        Ok(millis) => Ok(StampView { message_identifier, timestamp: millis as i64 }),
        Err(text) => Err(CommandErrorView::Clock(text)),
    }
}

impl Stamp {
    /// The stamp that `message_identifier` and a reading of the clock make:
    /// it succeeds exactly when the reading did.
    pub fn from_reading(message_identifier: String, reading: Result<u128, String>) -> (r: Result<
        Stamp,
        CommandError,
    >)
        ensures
            stamp_view(r) == stamp_of(
                message_identifier@,
                match reading {
                    Ok(millis) => Ok(millis),
                    Err(text) => Err(text@),
                },
            ),
            r is Ok <==> reading is Ok,
    {
        match reading {
            Ok(millis) => Ok(Stamp { message_identifier, timestamp: to_timestamp(millis) }),
            Err(text) => Err(CommandError::Clock(text)),
        }
    }

    /// A stamp with a fresh identifier and the time that the clock reads
    /// now. The only failure is a clock that reads a time before the Unix
    /// epoch.
    pub fn now() -> (r: Result<Stamp, CommandError>)
        ensures
            r matches Err(e) ==> e is Clock,
    {
        let message_identifier = fresh_identifier();
        let now = system_now();
        let reading = match since_epoch(&now) {
            Ok(elapsed) => Ok(whole_millis(&elapsed)),
            Err(e) => Err(clock_error_text(&e)),
        };
        Stamp::from_reading(message_identifier, reading)
    }
}

/// The record of one emitted event: its payload is the event in an envelope
/// with an empty revision, it carries no meta data and is no snapshot.
pub open spec fn record(
    aggregate_type: Seq<char>,
    aggregate_identifier: Seq<char>,
    emitted: (Seq<char>, Seq<u8>),
    sequence_number: i64,
    stamp: StampView,
) -> EventView {
    EventView {
        message_identifier: stamp.message_identifier,
        timestamp: stamp.timestamp,
        aggregate_identifier,
        aggregate_sequence_number: sequence_number,
        aggregate_type,
        payload: Some(wrapped(emitted.0, emitted.1)),
        meta_data: Seq::empty(),
        snapshot: false,
    }
}

/// Whether `count` more sequence numbers exist after `highest`.
pub open spec fn fits(highest: int, count: int) -> bool {
    highest + count <= i64::MAX
}

/// The records of a batch: one per emitted event, in order, numbered from
/// the number after `highest` upwards, all with one stamp.
pub open spec fn records(
    aggregate_type: Seq<char>,
    aggregate_identifier: Seq<char>,
    emitted: Seq<(Seq<char>, Seq<u8>)>,
    highest: i64,
    stamp: StampView,
) -> Seq<EventView> {
    Seq::new(
        emitted.len(),
        |i: int|
            record(
                aggregate_type,
                aggregate_identifier,
                emitted[i],
                (highest + 1 + i) as i64,
                stamp,
            ),
    )
}

/// The records of a batch are numbered without gaps from the number after
/// the highest one known, so each number is larger than the one before it
/// and than every number that the aggregate had.
pub proof fn lemma_records_ordered(
    aggregate_type: Seq<char>,
    aggregate_identifier: Seq<char>,
    emitted: Seq<(Seq<char>, Seq<u8>)>,
    highest: i64,
    stamp: StampView,
)
    requires
        fits(highest as int, emitted.len() as int),
    ensures
        records(aggregate_type, aggregate_identifier, emitted, highest, stamp).len()
            == emitted.len(),
        forall|i: int|
            0 <= i < emitted.len() ==> (#[trigger] records(
                aggregate_type,
                aggregate_identifier,
                emitted,
                highest,
                stamp,
            )[i]).aggregate_sequence_number == highest + 1 + i,
        forall|i: int, j: int|
            0 <= i < j < emitted.len() ==> (#[trigger] records(
                aggregate_type,
                aggregate_identifier,
                emitted,
                highest,
                stamp,
            )[i]).aggregate_sequence_number < (#[trigger] records(
                aggregate_type,
                aggregate_identifier,
                emitted,
                highest,
                stamp,
            )[j]).aggregate_sequence_number,
{
}

fn make_record(
    aggregate_type: &String,
    aggregate_identifier: &String,
    emitted: &(String, Vec<u8>),
    sequence_number: i64,
    stamp: &Stamp,
) -> (r: Event)
    ensures
        r@ == record(
            aggregate_type@,
            aggregate_identifier@,
            (emitted.0@, emitted.1@),
            sequence_number,
            stamp@,
        ),
{
    let payload = SerializedObject {
        object_type: emitted.0.clone(),
        revision: String::new(),
        data: emitted.1.clone(),
    };
    let r = Event {
        message_identifier: stamp.message_identifier.clone(),
        timestamp: stamp.timestamp,
        aggregate_identifier: aggregate_identifier.clone(),
        aggregate_sequence_number: sequence_number,
        aggregate_type: aggregate_type.clone(),
        payload: Some(payload),
        meta_data: Vec::new(),
        snapshot: false,
    };
    assert(r.meta_data.deep_view() =~= Seq::<(Seq<char>, Seq<char>)>::empty());
    r
}

/// Builds the records that append `events` to the aggregate
/// `aggregate_identifier`, whose highest sequence number so far is
/// `highest`. Fails with `SequenceExhausted` if and only if the sequence
/// numbers after `highest` do not suffice for all events.
pub fn event_records(
    aggregate_type: &String,
    aggregate_identifier: &String,
    events: &Vec<(String, Vec<u8>)>,
    highest: i64,
    stamp: &Stamp,
) -> (r: Result<Vec<Event>, CommandError>)
    ensures
        match r {
            Ok(built) => fits(highest as int, events@.len() as int) && built.deep_view()
                == records(
                aggregate_type@,
                aggregate_identifier@,
                applicable_events(events@),
                highest,
                stamp@,
            ),
            Err(e) => !fits(highest as int, events@.len() as int) && e
                == CommandError::SequenceExhausted,
        },
{
    let n = events.len();
    if highest as i128 + n as i128 > i64::MAX as i128 {
        return Err(CommandError::SequenceExhausted);
    }
    let ghost expected = records(
        aggregate_type@,
        aggregate_identifier@,
        applicable_events(events@),
        highest,
        stamp@,
    );
    let mut built: Vec<Event> = Vec::new();
    let mut number: i64 = highest;
    let mut i: usize = 0;
    while i < n
        invariant
            n == events@.len(),
            highest + n <= i64::MAX,
            0 <= i <= n,
            number == highest + i,
            built@.len() == i,
            expected == records(
                aggregate_type@,
                aggregate_identifier@,
                applicable_events(events@),
                highest,
                stamp@,
            ),
            forall|j: int| 0 <= j < i ==> (#[trigger] built@[j])@ == expected[j],
        decreases n - i,
    {
        number = number + 1;
        built.push(make_record(aggregate_type, aggregate_identifier, &events[i], number, stamp));
        i += 1;
    }
    assert(built.deep_view() =~= expected);
    Ok(built)
}

} // verus!
