//! The outbound side of a command subscription: the instructions that
//! subscribe to command names, grant credit to the sender, and answer each
//! handled command.

use crate::error::{message_text, CommandError};
use crate::ident::fresh_identifier;
use crate::message::{clone_payload, SerializedObject, SerializedObjectView};
use crate::outcome::{result_view, EmitEventsAndResponse, ResultView};
use vstd::prelude::*;
use vstd::string::*;

verus! {

/// The credit that one grant adds, unless the stream is opened with another.
pub const DEFAULT_BATCH_SIZE: i64 = 3;

/// The largest credit that one grant may add.
pub const MAX_BATCH_SIZE: i64 = 0x3fff_ffff_ffff_ffff;

/// The load factor that every subscription states.
pub const LOAD_FACTOR: i32 = 100;

/// How many handled commands may wait for the stream at once.
pub const RESULT_QUEUE_CAPACITY: usize = 10;

/// Asks the server for the commands of one name.
#[derive(Debug, PartialEq, Eq)]
pub struct CommandSubscription {
    pub message_id: String,
    pub command: String,
    pub client_id: String,
    pub component_name: String,
    pub load_factor: i32,
}

/// Allows the sender that many more commands.
#[derive(Debug, PartialEq, Eq)]
pub struct FlowControl {
    pub client_id: String,
    pub permits: i64,
}

/// Why a command failed, as the sender is told.
#[derive(Debug, PartialEq, Eq)]
pub struct ErrorMessage {
    pub message: String,
    pub location: String,
    pub details: Vec<String>,
    pub error_code: String,
}

/// The answer to one command.
#[derive(Debug, PartialEq, Eq)]
pub struct CommandResponse {
    pub message_identifier: String,
    /// The identifier of the command that this answers.
    pub request_identifier: String,
    pub payload: Option<SerializedObject>,
    /// Empty on success.
    pub error_code: String,
    pub error_message: Option<ErrorMessage>,
    pub meta_data: Vec<(String, String)>,
    pub processing_instructions: Vec<(String, String)>,
}

/// What an outbound instruction asks or tells.
#[derive(Debug, PartialEq, Eq)]
pub enum OutboundRequest {
    Subscribe(CommandSubscription),
    FlowControl(FlowControl),
    CommandResponse(CommandResponse),
}

/// One instruction on the outbound stream.
#[derive(Debug, PartialEq, Eq)]
pub struct CommandProviderOutbound {
    pub instruction_id: String,
    pub request: OutboundRequest,
}

/// A handled command, on its way from the pipeline to the stream.
#[derive(Debug, PartialEq, Eq)]
pub struct AxonCommandResult {
    /// The identifier of the command.
    pub message_identifier: String,
    pub result: Result<Option<EmitEventsAndResponse>, CommandError>,
}

/// The payload that answers a command which ended in `result`.
pub open spec fn response_payload(result: ResultView) -> Option<SerializedObjectView> {
    match result {
        Ok(Some(emitted)) => emitted.response,
        _ => None,
    }
}

/// `i` subscribes `client` to the commands named `command`.
pub open spec fn is_subscribe(i: CommandProviderOutbound, command: Seq<char>, client: Seq<char>)
    -> bool {
    &&& i.request matches OutboundRequest::Subscribe(s)
    &&& s.command@ == command
    &&& s.client_id@ == client
    &&& s.component_name@ == client
    &&& s.load_factor == LOAD_FACTOR
}

/// `i` grants `permits` more commands to the sender, in the name of `client`.
pub open spec fn is_flow_control(i: CommandProviderOutbound, client: Seq<char>, permits: int)
    -> bool {
    &&& i.request matches OutboundRequest::FlowControl(f)
    &&& f.client_id@ == client
    &&& f.permits == permits
}

/// `i` answers the command `request` that ended in `result`: on success with
/// the response's payload and an empty error code, on failure with the code
/// `ERROR` and the error's text.
pub open spec fn is_response(i: CommandProviderOutbound, request: Seq<char>, result: ResultView)
    -> bool {
    &&& i.request matches OutboundRequest::CommandResponse(r)
    &&& r.request_identifier@ == request
    &&& r.payload.deep_view() == response_payload(result)
    &&& r.meta_data@.len() == 0
    &&& r.processing_instructions@.len() == 0
    &&& match result {
        Ok(_) => r.error_code@ == Seq::<char>::empty() && r.error_message is None,
        Err(e) => {
            &&& r.error_code@ == "ERROR"@
            &&& r.error_message matches Some(m)
            &&& m.message@ == message_text(e)
            &&& m.location@ == Seq::<char>::empty()
            &&& m.details@.len() == 0
            &&& m.error_code@ == "ERROR"@
        },
    }
}

/// `out` opens a stream: one subscription per command name, in the order of
/// `commands`, and then the first grant, of twice the batch size.
pub open spec fn is_opening(
    out: Seq<CommandProviderOutbound>,
    commands: Seq<Seq<char>>,
    client: Seq<char>,
    batch: int,
) -> bool {
    &&& out.len() == commands.len() + 1
    &&& forall|i: int| 0 <= i < commands.len() ==> is_subscribe(#[trigger] out[i], commands[i], client)
    &&& is_flow_control(out[commands.len() as int], client, 2 * batch)
}

/// Whether answering a command at a balance of `credit` brings a new grant:
/// it does when the balance would come down to the batch size.
pub open spec fn grants(credit: int, batch: int) -> bool {
    credit - 1 <= batch
}

/// The balance after answering one command at a balance of `credit`.
pub open spec fn next_credit(credit: int, batch: int) -> int {
    if grants(credit, batch) {
        credit - 1 + batch
    } else {
        credit - 1
    }
}

/// `out` answers one command: the response, and after it a grant of one
/// batch if and only if the balance `credit` calls for it.
pub open spec fn is_answer(
    out: Seq<CommandProviderOutbound>,
    request: Seq<char>,
    result: ResultView,
    client: Seq<char>,
    credit: int,
    batch: int,
) -> bool {
    &&& out.len() == if grants(credit, batch) { 2int } else { 1int }
    &&& is_response(out[0], request, result)
    &&& grants(credit, batch) ==> is_flow_control(out[1], client, batch)
}

/// The state of an open outbound stream: who speaks, and how many commands
/// the sender may still send.
pub struct OutputStream {
    client_id: String,
    batch_size: i64,
    permits: i64,
}

fn subscribe_instruction(command: &String, client_id: &String) -> (r: CommandProviderOutbound)
    ensures
        is_subscribe(r, command@, client_id@),
{
    let subscription = CommandSubscription {
        message_id: fresh_identifier(),
        command: command.clone(),
        client_id: client_id.clone(),
        component_name: client_id.clone(),
        load_factor: LOAD_FACTOR,
    };
    CommandProviderOutbound {
        instruction_id: fresh_identifier(),
        request: OutboundRequest::Subscribe(subscription),
    }
}

fn flow_control_instruction(client_id: &String, permits: i64) -> (r: CommandProviderOutbound)
    ensures
        is_flow_control(r, client_id@, permits as int),
{
    CommandProviderOutbound {
        instruction_id: fresh_identifier(),
        request: OutboundRequest::FlowControl(
            FlowControl { client_id: client_id.clone(), permits },
        ),
    }
}

/// The response that answers `result`, under a fresh identifier.
pub fn response_instruction(result: AxonCommandResult) -> (r: CommandProviderOutbound)
    ensures
        is_response(r, result.message_identifier@, result_view(result.result)),
{
    let ghost view = result_view(result.result);
    let mut response = CommandResponse {
        message_identifier: fresh_identifier(),
        request_identifier: result.message_identifier,
        payload: None,
        error_code: String::new(),
        error_message: None,
        meta_data: Vec::new(),
        processing_instructions: Vec::new(),
    };
    match result.result {
        Ok(emitted) => {
            match emitted {
                Some(e) => {
                    response.payload = clone_payload(&e.response);
                },
                None => {},
            }
        },
        Err(e) => {
            response.error_code = String::from_str("ERROR");
            response.error_message = Some(
                ErrorMessage {
                    message: e.message(),
                    location: String::new(),
                    details: Vec::new(),
                    error_code: String::from_str("ERROR"),
                },
            );
        },
    }
    CommandProviderOutbound {
        instruction_id: fresh_identifier(),
        request: OutboundRequest::CommandResponse(response),
    }
}

impl OutputStream {
    #[verifier::type_invariant]
    spec fn in_credit(self) -> bool {
        &&& 1 <= self.batch_size <= MAX_BATCH_SIZE
        &&& self.batch_size < self.permits <= 2 * self.batch_size
    }

    /// In whose name the stream speaks.
    pub closed spec fn client(&self) -> Seq<char> {
        self.client_id@
    }

    /// The credit that one grant adds.
    pub closed spec fn batch(&self) -> int {
        self.batch_size as int
    }

    /// How many commands the sender may still send.
    pub closed spec fn credit(&self) -> int {
        self.permits as int
    }

    /// Opens a stream for `client_id` with grants of `batch_size`: the
    /// instructions that subscribe to each of `commands`, in order, and then
    /// grant twice the batch size.
    pub fn open_with(client_id: String, commands: &Vec<String>, batch_size: i64) -> (r: (
        OutputStream,
        Vec<CommandProviderOutbound>,
    ))
        requires
            1 <= batch_size <= MAX_BATCH_SIZE,
        ensures
            r.0.client() == client_id@,
            r.0.batch() == batch_size,
            r.0.credit() == 2 * batch_size,
            is_opening(r.1@, commands.deep_view(), client_id@, batch_size as int),
    {
        let mut out: Vec<CommandProviderOutbound> = Vec::new();
        let n = commands.len();
        let mut i: usize = 0;
        while i < n
            invariant
                n == commands@.len(),
                0 <= i <= n,
                out@.len() == i,
                forall|j: int|
                    0 <= j < i ==> is_subscribe(
                        #[trigger] out@[j],
                        commands.deep_view()[j],
                        client_id@,
                    ),
            decreases n - i,
        {
            let instruction = subscribe_instruction(&commands[i], &client_id);
            out.push(instruction);
            i += 1;
        }
        let permits = batch_size * 2;
        out.push(flow_control_instruction(&client_id, permits));
        let stream = OutputStream { client_id, batch_size, permits };
        (stream, out)
    }

    /// Opens a stream as [`OutputStream::open_with`] does, where the batch
    /// size is in range. `None` if and only if the batch size is less than
    /// one or more than [`MAX_BATCH_SIZE`].
    pub fn open(client_id: String, commands: &Vec<String>, batch_size: i64) -> (r: Option<
        (OutputStream, Vec<CommandProviderOutbound>),
    >)
        ensures
            r is Some <==> 1 <= batch_size <= MAX_BATCH_SIZE,
            r matches Some((stream, out)) ==> {
                &&& stream.client() == client_id@
                &&& stream.batch() == batch_size
                &&& stream.credit() == 2 * batch_size
                &&& is_opening(out@, commands.deep_view(), client_id@, batch_size as int)
            },
    {
        if batch_size < 1 || batch_size > MAX_BATCH_SIZE {
            None
        } else {
            Some(OutputStream::open_with(client_id, commands, batch_size))
        }
    }

    /// How many commands the sender may still send.
    pub fn permits(&self) -> (r: i64)
        ensures
            r == self.credit(),
            self.batch() < r <= 2 * self.batch(),
    {
        proof {
            use_type_invariant(self);
        }
        self.permits
    }

    /// The credit that one grant adds.
    pub fn batch_size(&self) -> (r: i64)
        ensures
            r == self.batch(),
            1 <= r <= MAX_BATCH_SIZE,
    {
        proof {
            use_type_invariant(self);
        }
        self.batch_size
    }

    /// Answers one handled command: the response and, where the balance
    /// comes down to the batch size, a grant of one batch after it.
    pub fn respond(&mut self, result: AxonCommandResult) -> (out: Vec<CommandProviderOutbound>)
        ensures
            final(self).client() == old(self).client(),
            final(self).batch() == old(self).batch(),
            final(self).credit() == next_credit(old(self).credit(), old(self).batch()),
            is_answer(
                out@,
                result.message_identifier@,
                result_view(result.result),
                old(self).client(),
                old(self).credit(),
                old(self).batch(),
            ),
    {
        proof {
            use_type_invariant(&*self);
        }
        let mut out: Vec<CommandProviderOutbound> = Vec::new();
        out.push(response_instruction(result));
        let mut permits = self.permits - 1;
        if permits <= self.batch_size {
            out.push(flow_control_instruction(&self.client_id, self.batch_size));
            permits = permits + self.batch_size;
        }
        self.permits = permits;
        out
    }
}

/// Opens a stream for `client_id` with the default batch size: the
/// instructions that subscribe to each of `commands`, in order, and then
/// grant twice the batch size.
pub fn create_output_stream(client_id: String, commands: &Vec<String>) -> (r: (
    OutputStream,
    Vec<CommandProviderOutbound>,
))
    ensures
        r.0.client() == client_id@,
        r.0.batch() == DEFAULT_BATCH_SIZE,
        r.0.credit() == 2 * DEFAULT_BATCH_SIZE,
        is_opening(r.1@, commands.deep_view(), client_id@, DEFAULT_BATCH_SIZE as int),
{
    OutputStream::open_with(client_id, commands, DEFAULT_BATCH_SIZE)
}

/// The balance after `k` answers on a stream that was opened with grants of
/// `batch`.
pub open spec fn credit_after(batch: int, k: nat) -> int
    decreases k,
{
    if k == 0 {
        2 * batch
    } else {
        next_credit(credit_after(batch, (k - 1) as nat), batch)
    }
}

/// The remainder of a successor: one more than the remainder, or zero where
/// the remainder was the largest.
pub proof fn lemma_remainder_successor(x: int, m: int)
    requires
        0 <= x,
        1 <= m,
    ensures
        0 <= x % m < m,
        (x + 1) % m == if x % m == m - 1 {
            0
        } else {
            x % m + 1
        },
{
    let q = x / m;
    let r = x % m;
    vstd::arithmetic::div_mod::lemma_fundamental_div_mod(x, m);
    vstd::arithmetic::div_mod::lemma_mod_bound(x, m);
    assert(m * q == q * m) by (nonlinear_arith);
    if r == m - 1 {
        assert(x + 1 == (q + 1) * m + 0) by (nonlinear_arith)
            requires
                x == q * m + r,
                r == m - 1,
        ;
        vstd::arithmetic::div_mod::lemma_fundamental_div_mod_converse(x + 1, m, q + 1, 0);
    } else {
        vstd::arithmetic::div_mod::lemma_fundamental_div_mod_converse(x + 1, m, q, r + 1);
    }
}

/// The credit invariant. After `k` answers the balance is twice the batch
/// size less the answers since the last grant, so it stays above the batch
/// size and never exceeds twice the batch size; the next answer brings a
/// grant exactly when it is the last of a batch. In particular, while
/// fewer answers than one batch have gone out, nothing was granted and the
/// balance is twice the batch size less `k`.
pub proof fn lemma_credit(batch: int, k: nat)
    requires
        1 <= batch,
    ensures
        credit_after(batch, k) == 2 * batch - (k as int) % batch,
        batch < credit_after(batch, k) <= 2 * batch,
        grants(credit_after(batch, k), batch) <==> (k as int + 1) % batch == 0,
        grants(credit_after(batch, k), batch) ==> credit_after(batch, (k + 1) as nat)
            == credit_after(batch, k) - 1 + batch,
        k < batch ==> credit_after(batch, k) == 2 * batch - k,
    decreases k,
{
    if k == 0 {
        vstd::arithmetic::div_mod::lemma_small_mod(0, batch as nat);
    } else {
        lemma_credit(batch, (k - 1) as nat);
        lemma_remainder_successor(k - 1, batch);
    }
    lemma_remainder_successor(k as int, batch);
    if k < batch {
        vstd::arithmetic::div_mod::lemma_small_mod(k, batch as nat);
    }
}

/// The identifiers of the commands that the responses among `out` answer,
/// in order.
pub open spec fn answered(out: Seq<CommandProviderOutbound>) -> Seq<Seq<char>>
    decreases out.len(),
{
    if out.len() == 0 {
        Seq::empty()
    } else {
        match out.last().request {
            OutboundRequest::CommandResponse(r) => answered(out.drop_last()).push(
                r.request_identifier@,
            ),
            _ => answered(out.drop_last()),
        }
    }
}

/// All instructions of `outs`, one batch after the other.
pub open spec fn joined(outs: Seq<Seq<CommandProviderOutbound>>) -> Seq<CommandProviderOutbound>
    decreases outs.len(),
{
    if outs.len() == 0 {
        Seq::empty()
    } else {
        joined(outs.drop_last()) + outs.last()
    }
}

/// What two runs of instructions answer, one after the other, is what the
/// first answers and then what the second answers.
pub proof fn lemma_answered_concat(a: Seq<CommandProviderOutbound>, b: Seq<CommandProviderOutbound>)
    ensures
        answered(a + b) == answered(a) + answered(b),
    decreases b.len(),
{
    if b.len() == 0 {
        assert(a + b =~= a);
        assert(answered(a) + answered(b) =~= answered(a));
    } else {
        lemma_answered_concat(a, b.drop_last());
        assert((a + b).drop_last() =~= a + b.drop_last());
        assert((a + b).last() == b.last());
        match b.last().request {
            OutboundRequest::CommandResponse(r) => {
                assert(answered(a + b) =~= answered(a) + answered(b));
            },
            _ => {},
        }
    }
}

/// Opening a stream answers no command.
pub proof fn lemma_opening_answers_nothing(
    out: Seq<CommandProviderOutbound>,
    commands: Seq<Seq<char>>,
    client: Seq<char>,
    batch: int,
)
    requires
        is_opening(out, commands, client, batch),
    ensures
        answered(out) == Seq::<Seq<char>>::empty(),
{
    lemma_no_response(out);
}

/// Instructions without a response among them answer no command.
pub proof fn lemma_no_response(out: Seq<CommandProviderOutbound>)
    requires
        forall|i: int| 0 <= i < out.len() ==> !((#[trigger] out[i]).request is CommandResponse),
    ensures
        answered(out) == Seq::<Seq<char>>::empty(),
    decreases out.len(),
{
    if out.len() > 0 {
        assert(!(out[out.len() - 1].request is CommandResponse));
        assert forall|i: int| 0 <= i < out.drop_last().len() implies !((
        #[trigger] out.drop_last()[i]).request is CommandResponse) by {
            assert(out.drop_last()[i] == out[i]);
        }
        lemma_no_response(out.drop_last());
    }
}

/// What [`OutputStream::respond`] hands out answers the command once, and
/// no other command.
pub proof fn lemma_answer_answers_once(
    out: Seq<CommandProviderOutbound>,
    request: Seq<char>,
    result: ResultView,
    client: Seq<char>,
    credit: int,
    batch: int,
)
    requires
        is_answer(out, request, result, client, credit, batch),
    ensures
        answered(out) == seq![request],
{
    let first = out.take(1);
    assert(first.drop_last() =~= Seq::<CommandProviderOutbound>::empty());
    assert(first.last() == out[0]);
    assert(answered(first.drop_last()) =~= Seq::<Seq<char>>::empty());
    assert(answered(first) =~= seq![request]);
    if out.len() == 1 {
        assert(out =~= first);
    } else {
        assert(out.drop_last() =~= first);
        assert(out.last() == out[1]);
    }
}

/// Single round trip. On a stream that was opened and then answered one
/// handled command after the other, the responses answer exactly those
/// commands, in the order in which they were handled, after every
/// subscription and the first grant. Where the commands' identifiers
/// differ, each of them is answered by exactly one response.
pub proof fn lemma_single_round_trip(
    opening: Seq<CommandProviderOutbound>,
    commands: Seq<Seq<char>>,
    client: Seq<char>,
    batch: int,
    outs: Seq<Seq<CommandProviderOutbound>>,
    requests: Seq<Seq<char>>,
)
    requires
        is_opening(opening, commands, client, batch),
        outs.len() == requests.len(),
        forall|i: int| 0 <= i < outs.len() ==> answered(#[trigger] outs[i]) == seq![requests[i]],
    ensures
        answered(opening + joined(outs)) == requests,
        forall|i: int|
            0 <= i < commands.len() ==> is_subscribe(
                #[trigger] (opening + joined(outs))[i],
                commands[i],
                client,
            ),
        is_flow_control((opening + joined(outs))[commands.len() as int], client, 2 * batch),
        requests.no_duplicates() ==> forall|i: int, j: int|
            0 <= i < requests.len() && 0 <= j < requests.len() ==> (#[trigger] answered(
                opening + joined(outs),
            )[j] == #[trigger] requests[i] <==> j == i),
{
    lemma_opening_answers_nothing(opening, commands, client, batch);
    lemma_joined_answers(outs, requests);
    lemma_answered_concat(opening, joined(outs));
    assert(answered(opening) + answered(joined(outs)) =~= requests);
    assert forall|i: int| 0 <= i < commands.len() implies is_subscribe(
        #[trigger] (opening + joined(outs))[i],
        commands[i],
        client,
    ) by {
        assert((opening + joined(outs))[i] == opening[i]);
    }
    assert((opening + joined(outs))[commands.len() as int] == opening[commands.len() as int]);
}

/// Batches that answer one command each answer those commands, in order.
pub proof fn lemma_joined_answers(
    outs: Seq<Seq<CommandProviderOutbound>>,
    requests: Seq<Seq<char>>,
)
    requires
        outs.len() == requests.len(),
        forall|i: int| 0 <= i < outs.len() ==> answered(#[trigger] outs[i]) == seq![requests[i]],
    ensures
        answered(joined(outs)) == requests,
    decreases outs.len(),
{
    if outs.len() == 0 {
        assert(requests =~= Seq::<Seq<char>>::empty());
    } else {
        let front = outs.drop_last();
        assert forall|i: int| 0 <= i < front.len() implies answered(#[trigger] front[i])
            == seq![requests.drop_last()[i]] by {
            assert(front[i] == outs[i]);
        }
        lemma_joined_answers(front, requests.drop_last());
        lemma_answered_concat(joined(front), outs.last());
        assert(answered(outs[outs.len() - 1]) == seq![requests[outs.len() - 1]]);
        assert(requests.drop_last() + seq![requests.last()] =~= requests);
    }
}

} // verus!
