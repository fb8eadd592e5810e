//! The producer dispatcher: the settings of a producer client, the payload,
//! the recording of deliveries and the accounting of a send request.

use vstd::prelude::*;
use vstd::multiset::Multiset;
use vstd::string::*;
use rand::Rng;
use crate::config::{new_config, no_settings, set_config, settings_of};
use crate::decimal::{decimal, decimal_text};
use crate::ids::{random_uuid, uuid_text, uuid_to_string};
use crate::models::{
    ByteSize, Duration, EventType, Message, MessageEvent, ResponseError, SendMessage,
    SendMessageTask, SentMessage, EXPERIMENT_UUID_HEADER, MESSAGE_UUID_HEADER,
};
use crate::state::MessagesState;

verus! {

/// Draws an index below `bound` with `rand::Rng::random_range` on the
/// thread's generator (`rand::rng`). The range `0..bound` must not be empty;
/// the index lies in it, and nothing more is claimed: it is random.
#[verifier::external_body]
fn random_index(bound: usize) -> (index: usize)
    requires
        bound > 0,
    ensures
        index < bound,
{
    rand::rng().random_range(0..bound)
}

/// How many characters a payload is drawn from: the upper-case letters, the
/// lower-case letters and the digits.
pub const CHARSET_LEN: usize = 62;

/// The character of the alphabet at `index`: `A` to `Z`, then `a` to `z`,
/// then `0` to `9`.
pub open spec fn charset_at(index: int) -> char {
    if index < 26 {
        (('A' as u8) + index) as char
    } else if index < 52 {
        (('a' as u8) + (index - 26)) as char
    } else {
        (('0' as u8) + (index - 52)) as char
    }
}

/// Whether the character is an ASCII letter or digit.
pub open spec fn is_alphanumeric(c: char) -> bool {
    ||| ('A' <= c && c <= 'Z')
    ||| ('a' <= c && c <= 'z')
    ||| ('0' <= c && c <= '9')
}

fn charset_char(index: usize) -> (c: char)
    requires
        index < CHARSET_LEN,
    ensures
        c == charset_at(index as int),
        is_alphanumeric(c),
{
    let offset = index as u8;
    if index < 26 {
        (65u8 + offset) as char
    } else if index < 52 {
        (97u8 + (offset - 26)) as char
    } else {
        (48u8 + (offset - 52)) as char
    }
}

/// A random payload of `body_size` characters, each an ASCII letter or
/// digit, so that it takes `body_size` bytes.
pub fn random_string(body_size: u128) -> (payload: String)
    ensures
        payload@.len() == body_size,
        forall|i: int| 0 <= i < payload@.len() ==> is_alphanumeric(#[trigger] payload@[i]),
{
    let mut payload = String::new();
    let mut made: u128 = 0;
    while made < body_size
        invariant
            made <= body_size,
            payload@.len() == made,
            forall|i: int| 0 <= i < payload@.len() ==> is_alphanumeric(#[trigger] payload@[i]),
        decreases body_size - made,
    {
        let index = random_index(CHARSET_LEN);
        payload.push(charset_char(index));
        made = made + 1;
    }
    payload
}

/// The settings of the producer client of a send request: where to connect,
/// how long to buffer, how long a message may take, and, where TLS is asked
/// for, TLS without verification of the certificate.
pub open spec fn producer_settings(params: SendMessage) -> Map<Seq<char>, Seq<char>> {
    let plain = no_settings().insert(
        "bootstrap.servers"@,
        params.brokers@,
    ).insert("queue.buffering.max.ms"@, decimal_text(params.buffering_ms as nat)).insert(
        "message.timeout.ms"@,
        decimal_text(params.message_timeout.spec_millis() as nat),
    );
    if params.ssl {
        plain.insert("security.protocol"@, "ssl"@).insert(
            "enable.ssl.certificate.verification"@,
            "false"@,
        )
    } else {
        plain
    }
}

/// The configuration from which the producer client of a send request is
/// created: it holds the settings of `producer_settings` and no others.
pub fn create_producer(params: &SendMessage) -> (config: rdkafka::ClientConfig)
    ensures
        settings_of(config) == producer_settings(*params),
{
    let mut config = new_config();
    set_config(&mut config, "bootstrap.servers", params.brokers.as_str());
    let buffering = decimal(params.buffering_ms as u128);
    set_config(&mut config, "queue.buffering.max.ms", buffering.as_str());
    let timeout = decimal(params.message_timeout.as_millis());
    set_config(&mut config, "message.timeout.ms", timeout.as_str());
    if params.ssl {
        set_config(&mut config, "security.protocol", "ssl");
        set_config(&mut config, "enable.ssl.certificate.verification", "false");
    }
    config
}

/// The key under which the message with the number `index` is published:
/// `msg-` and the number.
pub fn message_key(index: usize) -> (key: String)
    ensures
        key@ == "msg-"@ + decimal_text(index as nat),
{
    let digits = decimal(index as u128);
    String::from_str("msg-").concat(digits.as_str())
}

/// One header of a published message: a name and a text.
#[derive(Debug, Clone, PartialEq, Eq)]
pub struct CorrelationHeader {
    pub key: String,
    pub value: String,
}

/// The two headers by which a published message is correlated: the id of the
/// message and the id of its experiment, each as the text of a UUID.
pub fn correlation_headers(message_uuid: u128, experiment_uuid: u128) -> (headers: Vec<
    CorrelationHeader,
>)
    ensures
        headers@.len() == 2,
        headers@[0].key@ == MESSAGE_UUID_HEADER@,
        headers@[0].value@ == uuid_text(message_uuid),
        headers@[1].key@ == EXPERIMENT_UUID_HEADER@,
        headers@[1].value@ == uuid_text(experiment_uuid),
{
    let mut headers: Vec<CorrelationHeader> = Vec::new();
    headers.push(
        CorrelationHeader {
            key: String::from_str(MESSAGE_UUID_HEADER),
            value: uuid_to_string(message_uuid),
        },
    );
    headers.push(
        CorrelationHeader {
            key: String::from_str(EXPERIMENT_UUID_HEADER),
            value: uuid_to_string(experiment_uuid),
        },
    );
    headers
}

/// A fresh id for a message about to be published: that of a random UUID.
pub fn new_message_uuid() -> (id: u128)
    ensures
        crate::ids::is_random_uuid(id),
{
    random_uuid()
}

/// How one delivery ended.
#[derive(Debug, Clone, Copy, PartialEq, Eq)]
pub enum Delivery {
    /// The broker acknowledged the message.
    Delivered,
    /// The broker refused the message or did not answer in time.
    Failed,
    /// The experiment has no event list any more: nothing was recorded.
    Dropped,
}

impl Delivery {
    /// Whether the delivery counts as a failure of the send request.
    pub open spec fn is_failure(self) -> bool {
        !(self is Delivered)
    }

    pub fn failed(&self) -> (f: bool)
        ensures
            f == self.is_failure(),
    {
        match *self {
            Delivery::Delivered => false,
            _ => true,
        }
    }
}

/// The event that records the sending of a message at `now`.
pub open spec fn sent_event(params: SendMessage, message_uuid: u128, now: u128) -> MessageEvent {
    MessageEvent {
        message_uuid,
        timestamp_millis: now,
        brokers: params.brokers,
        topic: params.topic,
        event_type: EventType::Sent,
    }
}

/// Records a delivery that completed at `now`: the message is offered under
/// the experiment of the request and a `Sent` event is appended, whether or
/// not the broker acknowledged. Where the experiment has no event list,
/// because it is unknown or has ended meanwhile, nothing is recorded and the
/// delivery counts as dropped.
pub fn sender(
    state: &mut MessagesState,
    params: &SendMessage,
    message_uuid: u128,
    payload_len: usize,
    now: u128,
    acknowledged: bool,
) -> (outcome: Delivery)
    ensures
        final(state)@ == old(state)@.insert_message(
            Message { uuid: message_uuid, bytes_size: ByteSize::b(payload_len as u64) },
            params.experiment_uuid,
        ).append_event(params.experiment_uuid, sent_event(*params, message_uuid, now)),
        old(state)@.wf() ==> final(state)@.wf(),
        outcome == (if !old(state)@.insert_message(
            Message { uuid: message_uuid, bytes_size: ByteSize::b(payload_len as u64) },
            params.experiment_uuid,
        ).events.contains_key(params.experiment_uuid) {
            Delivery::Dropped
        } else if acknowledged {
            Delivery::Delivered
        } else {
            Delivery::Failed
        }),
        old(state)@.wf() ==> (outcome is Dropped <==> !old(state)@.experiments.contains_key(
            params.experiment_uuid,
        )),
{
    state.insert_message(
        Message { uuid: message_uuid, bytes_size: ByteSize::b(payload_len as u64) },
        params.experiment_uuid,
    );
    let event = MessageEvent {
        message_uuid,
        timestamp_millis: now,
        brokers: params.brokers.clone(),
        topic: params.topic.clone(),
        event_type: EventType::Sent,
    };
    let found = state.append_event(params.experiment_uuid, event);
    if !found {
        Delivery::Dropped
    } else if acknowledged {
        Delivery::Delivered
    } else {
        Delivery::Failed
    }
}

/// Counts one failed delivery: one more failure, and the bytes that were
/// not sent leave the total.
pub fn handle_message_delivery_failure(message: &mut SentMessage, bytes_unsent: usize)
    requires
        old(message).delivery_failures < usize::MAX,
        bytes_unsent <= old(message).total_sent_bytes,
    ensures
        *final(message) == (SentMessage {
            delivery_failures: (old(message).delivery_failures + 1) as usize,
            total_sent_bytes: (old(message).total_sent_bytes - bytes_unsent) as usize,
            ..*old(message)
        }),
{
    message.delivery_failures = message.delivery_failures + 1;
    message.total_sent_bytes = message.total_sent_bytes - bytes_unsent;
}

/// How a send request that was served ended.
#[derive(Debug, Clone, Copy, PartialEq, Eq)]
pub enum SendStatus {
    /// Every message was delivered, or the request was served detached.
    Complete,
    /// Some messages were delivered and some were not.
    Partial,
}

impl SendStatus {
    /// The HTTP status that stands for the outcome: 200, or 207 where only
    /// a part was delivered.
    pub fn status_code(&self) -> (code: u16)
        ensures
            code == (match *self {
                SendStatus::Complete => 200u16,
                SendStatus::Partial => 207u16,
            }),
    {
        match *self {
            SendStatus::Complete => 200,
            SendStatus::Partial => 207,
        }
    }
}

/// How many of the deliveries failed.
pub open spec fn failures(outcomes: Seq<Delivery>) -> nat
    decreases outcomes.len(),
{
    if outcomes.len() == 0 {
        0
    } else {
        failures(outcomes.drop_last()) + (if outcomes.last().is_failure() {
            1nat
        } else {
            0nat
        })
    }
}

/// No more deliveries fail than there are.
pub proof fn lemma_failures_bounded(outcomes: Seq<Delivery>)
    ensures
        failures(outcomes) <= outcomes.len(),
    decreases outcomes.len(),
{
    if outcomes.len() > 0 {
        lemma_failures_bounded(outcomes.drop_last());
    }
}

/// No delivery counts as failed exactly where every one was acknowledged,
/// and every delivery counts as failed exactly where none was.
pub proof fn lemma_failures_extremes(outcomes: Seq<Delivery>)
    ensures
        failures(outcomes) == 0 <==> (forall|i: int|
            0 <= i < outcomes.len() ==> #[trigger] outcomes[i] is Delivered),
        failures(outcomes) == outcomes.len() <==> (forall|i: int|
            0 <= i < outcomes.len() ==> !(#[trigger] outcomes[i] is Delivered)),
    decreases outcomes.len(),
{
    if outcomes.len() > 0 {
        let front = outcomes.drop_last();
        lemma_failures_extremes(front);
        lemma_failures_bounded(front);
        assert forall|i: int| 0 <= i < front.len() implies front[i] == outcomes[i] by {}
        if forall|i: int| 0 <= i < outcomes.len() ==> #[trigger] outcomes[i] is Delivered {
            assert forall|i: int| 0 <= i < front.len() implies #[trigger] front[i] is Delivered by {
                assert(outcomes[i] is Delivered);
            }
        }
        if forall|i: int| 0 <= i < outcomes.len() ==> !(#[trigger] outcomes[i] is Delivered) {
            assert forall|i: int| 0 <= i < front.len() implies !(#[trigger] front[i] is Delivered) by {
                assert(!(outcomes[i] is Delivered));
            }
        }
        if failures(outcomes) == 0 {
            assert forall|i: int| 0 <= i < outcomes.len() implies #[trigger] outcomes[i] is Delivered by {
                if i < front.len() {
                    assert(front[i] is Delivered);
                }
            }
        }
        if failures(outcomes) == outcomes.len() {
            assert forall|i: int| 0 <= i < outcomes.len() implies !(#[trigger] outcomes[i] is Delivered) by {
                if i < front.len() {
                    assert(!(front[i] is Delivered));
                }
            }
        }
    }
}

/// How many failures a collection of outcomes holds, whatever their order.
pub open spec fn failures_among(outcomes: Multiset<Delivery>) -> nat {
    outcomes.count(Delivery::Failed) + outcomes.count(Delivery::Dropped)
}

/// The failures of a sequence of outcomes are those of its outcomes taken
/// without their order.
pub proof fn lemma_failures_of_multiset(outcomes: Seq<Delivery>)
    ensures
        failures(outcomes) == failures_among(outcomes.to_multiset()),
    decreases outcomes.len(),
{
    if outcomes.len() == 0 {
        outcomes.to_multiset_ensures();
        assert(outcomes.to_multiset().len() == 0);
        assert(outcomes.to_multiset().count(Delivery::Failed) == 0);
        assert(outcomes.to_multiset().count(Delivery::Dropped) == 0);
    } else {
        let front = outcomes.drop_last();
        lemma_failures_of_multiset(front);
        front.to_multiset_ensures();
        assert(front.push(outcomes.last()) =~= outcomes);
        assert(outcomes.to_multiset() =~= front.to_multiset().insert(outcomes.last()));
    }
}

/// The order in which the deliveries of a request complete does not change
/// its answer: two sequences of the same outcomes are answered alike.
pub proof fn lemma_answer_ignores_order(
    params: SendMessage,
    payload_len: usize,
    first: Seq<Delivery>,
    second: Seq<Delivery>,
)
    requires
        first.to_multiset() == second.to_multiset(),
    ensures
        failures(first) == failures(second),
        send_answer(params, payload_len, first) == send_answer(params, payload_len, second),
{
    lemma_failures_of_multiset(first);
    lemma_failures_of_multiset(second);
}

/// The accounting of a request before any delivery has completed: every
/// message counts as sent.
pub open spec fn requested(params: SendMessage, payload_len: usize) -> SentMessage {
    SentMessage {
        experiment_uuid: params.experiment_uuid,
        message_number: params.messages_number,
        bytes_size: payload_len,
        total_sent_bytes: (payload_len * params.messages_number) as usize,
        total_sent_bytes_human_readable: ByteSize((payload_len * params.messages_number) as u64),
        delivery_failures: 0,
    }
}

/// The accounting of a request after its deliveries ended as `outcomes`
/// say: the failures are counted and their bytes are not.
pub open spec fn accounted(params: SendMessage, payload_len: usize, outcomes: Seq<Delivery>)
    -> SentMessage {
    let sent = payload_len * (params.messages_number - failures(outcomes));
    SentMessage {
        experiment_uuid: params.experiment_uuid,
        message_number: params.messages_number,
        bytes_size: payload_len,
        total_sent_bytes: sent as usize,
        total_sent_bytes_human_readable: ByteSize(sent as u64),
        delivery_failures: failures(outcomes) as usize,
    }
}

/// The answer to a send request whose experiment is registered. A detached
/// request is answered from the requested totals, whatever its deliveries
/// do. Otherwise no failure is a complete success, a failure of every
/// message is an error, and anything between is a partial success that
/// carries the accounting.
pub open spec fn send_answer(params: SendMessage, payload_len: usize, outcomes: Seq<Delivery>)
    -> Result<(SentMessage, SendStatus), ResponseError> {
    if params.async_mode {
        Ok((requested(params, payload_len), SendStatus::Complete))
    } else if failures(outcomes) == 0 {
        Ok((accounted(params, payload_len, outcomes), SendStatus::Complete))
    } else if failures(outcomes) == params.messages_number {
        Err(ResponseError::NoMessagesDelivered)
    } else {
        Ok((accounted(params, payload_len, outcomes), SendStatus::Partial))
    }
}

/// Accounts for the deliveries of a send request as they ended, one
/// outcome for each message unless the request is detached, and answers as
/// `send_answer` says.
pub fn aggregate(params: &SendMessage, payload_len: usize, outcomes: &Vec<Delivery>) -> (answer:
    Result<(SentMessage, SendStatus), ResponseError>)
    requires
        payload_len * params.messages_number <= usize::MAX,
        !params.async_mode ==> outcomes@.len() == params.messages_number,
    ensures
        answer == send_answer(*params, payload_len, outcomes@),
{
    let total_bytes = payload_len * params.messages_number;
    let mut message = SentMessage {
        experiment_uuid: params.experiment_uuid,
        bytes_size: payload_len,
        message_number: params.messages_number,
        total_sent_bytes: total_bytes,
        total_sent_bytes_human_readable: ByteSize::b(total_bytes as u64),
        delivery_failures: 0,
    };
    if params.async_mode {
        return Ok((message, SendStatus::Complete));
    }
    let mut i: usize = 0;
    while i < outcomes.len()
        invariant
            i <= outcomes.len(),
            outcomes@.len() == params.messages_number,
            payload_len * params.messages_number <= usize::MAX,
            message.delivery_failures == failures(outcomes@.take(i as int)),
            message.delivery_failures <= i,
            message.total_sent_bytes == payload_len * (params.messages_number
                - message.delivery_failures),
            message.experiment_uuid == params.experiment_uuid,
            message.bytes_size == payload_len,
            message.message_number == params.messages_number,
        decreases outcomes.len() - i,
    {
        proof {
            assert(outcomes@.take(i + 1).drop_last() =~= outcomes@.take(i as int));
            assert(outcomes@.take(i + 1).last() == outcomes@[i as int]);
        }
        if outcomes[i].failed() {
            proof {
                let n = params.messages_number as int;
                let f = message.delivery_failures as int;
                let p = payload_len as int;
                assert(p * (n - f) >= p && p * (n - f) - p == p * (n - (f + 1)))
                    by (nonlinear_arith)
                    requires
                        f < n,
                        p >= 0,
                ;
            }
            handle_message_delivery_failure(&mut message, payload_len);
        }
        i = i + 1;
    }
    proof {
        assert(outcomes@.take(outcomes.len() as int) =~= outcomes@);
    }
    message.total_sent_bytes_human_readable = ByteSize::b(message.total_sent_bytes as u64);
    if message.delivery_failures == 0 {
        Ok((message, SendStatus::Complete))
    } else if message.delivery_failures == message.message_number {
        Err(ResponseError::NoMessagesDelivered)
    } else {
        Ok((message, SendStatus::Partial))
    }
}

/// Answers a send request. A request for an experiment that is not
/// registered is refused, whatever else it asks and whatever `outcomes`
/// holds. Every other request is answered as `send_answer` says from the
/// outcomes of its deliveries, one for each message unless the request is
/// detached.
pub fn send(
    state: &MessagesState,
    params: &SendMessage,
    payload_len: usize,
    outcomes: &Vec<Delivery>,
) -> (answer: Result<(SentMessage, SendStatus), ResponseError>)
    requires
        state@.experiments.contains_key(params.experiment_uuid) ==> payload_len
            * params.messages_number <= usize::MAX,
        state@.experiments.contains_key(params.experiment_uuid) && !params.async_mode
            ==> outcomes@.len() == params.messages_number,
    ensures
        answer == (if state@.experiments.contains_key(params.experiment_uuid) {
            send_answer(*params, payload_len, outcomes@)
        } else {
            Err(ResponseError::ExperimentNotFound)
        }),
{
    if !state.has_experiment(params.experiment_uuid) {
        return Err(ResponseError::ExperimentNotFound);
    }
    aggregate(params, payload_len, outcomes)
}

/// In how many batches a job publishes `messages` messages at `rate`
/// messages a batch: the quotient, rounded up.
pub open spec fn batch_count(messages: nat, rate: nat) -> nat
    recommends
        rate > 0,
{
    ((messages + rate - 1) / (rate as int)) as nat
}

/// How many messages the batch with the number `k` holds: a full batch
/// while that many are left, then what is left.
pub open spec fn batch_size(messages: nat, rate: nat, k: nat) -> nat {
    if (k + 1) * rate <= messages {
        rate
    } else if k * rate <= messages {
        (messages - k * rate) as nat
    } else {
        0
    }
}

/// The sizes of all batches of a job, in order.
pub open spec fn batch_plan(messages: nat, rate: nat) -> Seq<nat> {
    Seq::new(batch_count(messages, rate), |k: int| batch_size(messages, rate, k as nat))
}

/// The sum of the first `k` sizes.
pub open spec fn published(sizes: Seq<nat>, k: nat) -> nat
    decreases k,
{
    if k == 0 || k > sizes.len() {
        0
    } else {
        published(sizes, (k - 1) as nat) + sizes[k - 1]
    }
}

/// The batches of a job hold every message once: none is empty, none is
/// larger than the rate, and together they hold as many messages as were
/// asked for.
pub proof fn lemma_batches_cover(messages: nat, rate: nat)
    requires
        rate > 0,
    ensures
        forall|k: int|
            0 <= k < batch_count(messages, rate) ==> 0 < #[trigger] batch_plan(messages, rate)[k]
                <= rate,
        published(batch_plan(messages, rate), batch_count(messages, rate)) == messages,
{
    let count = batch_count(messages, rate);
    let plan = batch_plan(messages, rate);
    assert(count * rate >= messages && (count == 0 || (count - 1) * rate < messages))
        by (nonlinear_arith)
        requires
            rate > 0,
            count == ((messages + rate - 1) / (rate as int)) as nat,
    ;
    assert forall|k: int| 0 <= k < count implies 0 < #[trigger] plan[k] <= rate by {
        assert(k * rate <= (count - 1) * rate) by (nonlinear_arith)
            requires
                0 <= k <= count - 1,
                rate > 0,
        ;
        assert((k + 1) * rate == k * rate + rate) by (nonlinear_arith);
    }
    lemma_published_prefix(messages, rate, count);
    if count > 0 {
        assert(count * rate >= messages);
    }
}

/// The first `k` batches hold `k` full batches, or every message where
/// that is less.
proof fn lemma_published_prefix(messages: nat, rate: nat, k: nat)
    requires
        rate > 0,
        k <= batch_count(messages, rate),
    ensures
        published(batch_plan(messages, rate), k) == (if k * rate <= messages {
            k * rate
        } else {
            messages
        }),
    decreases k,
{
    if k > 0 {
        lemma_published_prefix(messages, rate, (k - 1) as nat);
        assert((k - 1) * rate + rate == k * rate) by (nonlinear_arith);
        assert((k - 1 + 1) * rate == k * rate) by (nonlinear_arith);
        let count = batch_count(messages, rate);
        assert((count - 1) * rate < messages) by (nonlinear_arith)
            requires
                rate > 0,
                count > 0,
                count == ((messages + rate - 1) / (rate as int)) as nat,
        ;
        assert((k - 1) * rate <= (count - 1) * rate) by (nonlinear_arith)
            requires
                k <= count,
                rate > 0,
        ;
    } else {
        assert(0 * rate == 0) by (nonlinear_arith);
    }
}

/// The sizes of the batches in which a job publishes `messages_number`
/// messages at `rate` messages a batch.
pub fn batch_sizes(messages_number: usize, rate: usize) -> (sizes: Vec<usize>)
    requires
        rate > 0,
    ensures
        sizes@.map_values(|size: usize| size as nat) == batch_plan(
            messages_number as nat,
            rate as nat,
        ),
{
    let mut sizes: Vec<usize> = Vec::new();
    let mut total: usize = 0;
    proof {
        let n = messages_number as int;
        let r = rate as int;
        assert(0 * r == 0) by (nonlinear_arith);
        if messages_number == 0 {
            assert((n + r - 1) / r == 0) by (nonlinear_arith)
                requires
                    n == 0,
                    r > 0,
            ;
        }
    }
    while total < messages_number
        invariant
            rate > 0,
            total <= messages_number,
            total < messages_number ==> total == sizes@.len() * rate,
            total == messages_number ==> sizes@.len() == batch_count(
                messages_number as nat,
                rate as nat,
            ),
            forall|k: int|
                0 <= k < sizes@.len() ==> #[trigger] sizes@[k] == batch_size(
                    messages_number as nat,
                    rate as nat,
                    k as nat,
                ),
        decreases messages_number - total,
    {
        let left = messages_number - total;
        let batch = if left < rate {
            left
        } else {
            rate
        };
        proof {
            let k = sizes@.len() as int;
            let n = messages_number as int;
            let r = rate as int;
            assert((k + 1) * r == k * r + r) by (nonlinear_arith);
            if left <= rate {
                assert((n + r - 1) / r == k + 1) by (nonlinear_arith)
                    requires
                        k * r < n,
                        n <= k * r + r,
                        r > 0,
                ;
            }
        }
        sizes.push(batch);
        total = total + batch;
    }
    proof {
        assert(sizes@.map_values(|size: usize| size as nat) =~= batch_plan(
            messages_number as nat,
            rate as nat,
        ));
    }
    sizes
}

/// One step of a job.
#[derive(Debug, Clone, Copy, PartialEq, Eq)]
pub enum JobStep {
    /// Start that many deliveries at once, without waiting for them.
    Publish(usize),
    /// Rest for that long before the next step.
    Rest(Duration),
}

/// The steps of a job with batches of these sizes: the batches in their
/// order, with a rest between each batch and the next, and none after the
/// last.
pub open spec fn job_steps(sizes: Seq<usize>, pause: Duration) -> Seq<JobStep>
    decreases sizes.len(),
{
    if sizes.len() == 0 {
        Seq::empty()
    } else if sizes.len() == 1 {
        seq![JobStep::Publish(sizes[0])]
    } else {
        job_steps(sizes.drop_last(), pause).push(JobStep::Rest(pause)).push(
            JobStep::Publish(sizes.last()),
        )
    }
}

/// How often the steps rest.
pub open spec fn rests_in(steps: Seq<JobStep>) -> nat
    decreases steps.len(),
{
    if steps.len() == 0 {
        0
    } else {
        rests_in(steps.drop_last()) + (if steps.last() is Rest {
            1nat
        } else {
            0nat
        })
    }
}

/// How often the steps publish.
pub open spec fn batches_in(steps: Seq<JobStep>) -> nat
    decreases steps.len(),
{
    if steps.len() == 0 {
        0
    } else {
        batches_in(steps.drop_last()) + (if steps.last() is Publish {
            1nat
        } else {
            0nat
        })
    }
}

/// A job publishes each of its batches once and rests once fewer: after
/// every batch but the last.
pub proof fn lemma_job_rests(sizes: Seq<usize>, pause: Duration)
    ensures
        batches_in(job_steps(sizes, pause)) == sizes.len(),
        sizes.len() > 0 ==> rests_in(job_steps(sizes, pause)) == sizes.len() - 1,
        sizes.len() > 0 ==> job_steps(sizes, pause).last() is Publish,
        sizes.len() == 0 ==> rests_in(job_steps(sizes, pause)) == 0,
    decreases sizes.len(),
{
    reveal_with_fuel(rests_in, 3);
    reveal_with_fuel(batches_in, 3);
    if sizes.len() == 1 {
        let steps = job_steps(sizes, pause);
        assert(steps.drop_last() =~= Seq::<JobStep>::empty());
    } else if sizes.len() > 1 {
        let front = job_steps(sizes.drop_last(), pause);
        lemma_job_rests(sizes.drop_last(), pause);
        let rested = front.push(JobStep::Rest(pause));
        let steps = rested.push(JobStep::Publish(sizes.last()));
        assert(steps.drop_last() =~= rested);
        assert(rested.drop_last() =~= front);
    }
}

fn steps_of(sizes: &Vec<usize>, pause: Duration) -> (steps: Vec<JobStep>)
    ensures
        steps@ == job_steps(sizes@, pause),
{
    let mut steps: Vec<JobStep> = Vec::new();
    let mut i: usize = 0;
    while i < sizes.len()
        invariant
            i <= sizes.len(),
            steps@ == job_steps(sizes@.take(i as int), pause),
        decreases sizes.len() - i,
    {
        proof {
            assert(sizes@.take(i + 1).drop_last() =~= sizes@.take(i as int));
            assert(sizes@.take(i + 1).last() == sizes@[i as int]);
        }
        if i > 0 {
            steps.push(JobStep::Rest(pause));
        }
        steps.push(JobStep::Publish(sizes[i]));
        i = i + 1;
    }
    proof {
        assert(sizes@.take(sizes.len() as int) =~= sizes@);
    }
    steps
}

/// What a job does: the request that each of its deliveries is made from,
/// the sizes of its batches, how long it rests between two batches, and its
/// steps in their order.
#[derive(Debug, Clone)]
pub struct JobPlan {
    pub base: SendMessage,
    pub batches: Vec<usize>,
    pub pause: Duration,
    pub steps: Vec<JobStep>,
}

/// The request that the deliveries of a job are made from: that of the job,
/// detached and not blocking.
pub open spec fn job_base(params: SendMessageTask) -> SendMessage {
    SendMessage {
        buffering_ms: params.buffering_ms,
        brokers: params.brokers,
        topic: params.topic,
        ssl: params.ssl,
        message_timeout: params.message_timeout,
        body_size: params.body_size,
        messages_number: params.messages_number,
        experiment_uuid: params.experiment_uuid,
        blocking: false,
        async_mode: true,
    }
}

/// Plans a job. A job for an experiment that is not registered is refused,
/// whatever its rate. Every other job publishes its messages in the batches
/// of `batch_plan`, rests for the span of its rate between each batch and
/// the next, as `job_steps` says, and makes each delivery from `job_base`.
pub fn send_job(state: &MessagesState, params: &SendMessageTask) -> (plan: Result<
    JobPlan,
    ResponseError,
>)
    requires
        state@.experiments.contains_key(params.experiment_uuid) ==> params.message_rate.messages
            > 0,
    ensures
        match plan {
            Ok(job) => {
                &&& state@.experiments.contains_key(params.experiment_uuid)
                &&& job.base == job_base(*params)
                &&& job.pause == params.message_rate.per
                &&& job.steps@ == job_steps(job.batches@, params.message_rate.per)
                &&& job.batches@.map_values(|size: usize| size as nat) == batch_plan(
                    params.messages_number as nat,
                    params.message_rate.messages as nat,
                )
            },
            Err(e) => e == ResponseError::ExperimentNotFound && !state@.experiments.contains_key(
                params.experiment_uuid,
            ),
        },
{
    if !state.has_experiment(params.experiment_uuid) {
        return Err(ResponseError::ExperimentNotFound);
    }
    let base = SendMessage {
        buffering_ms: params.buffering_ms,
        brokers: params.brokers.clone(),
        topic: params.topic.clone(),
        ssl: params.ssl,
        message_timeout: params.message_timeout,
        body_size: params.body_size,
        messages_number: params.messages_number,
        experiment_uuid: params.experiment_uuid,
        blocking: false,
        async_mode: true,
    };
    let batches = batch_sizes(params.messages_number, params.message_rate.messages);
    let steps = steps_of(&batches, params.message_rate.per);
    Ok(JobPlan { base, batches, pause: params.message_rate.per, steps })
}

} // verus!
