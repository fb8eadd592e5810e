//! The data the engine works on: broker configurations, experiments,
//! messages, events and the requests and responses of the operations.

pub mod measurements;

use vstd::prelude::*;

verus! {

/// Header that carries the id of a message.
pub const MESSAGE_UUID_HEADER: &'static str = "x-message-uuid";

/// Header that carries the id of the experiment a message belongs to.
pub const EXPERIMENT_UUID_HEADER: &'static str = "x-experiment-uuid";

/// A quantity of bytes.
#[derive(Debug, Clone, Copy, PartialEq, Eq)]
pub struct ByteSize(pub u64);

impl ByteSize {
    /// A size of that many bytes.
    pub open spec fn spec_b(size: u64) -> ByteSize {
        ByteSize(size)
    }

    /// A size of that many bytes.
    #[verifier::when_used_as_spec(spec_b)]
    pub fn b(size: u64) -> (bytes: ByteSize)
        ensures
            bytes == ByteSize(size),
    {
        ByteSize(size)
    }

    /// The quantity as a plain number.
    pub fn as_bytes(&self) -> (bytes: u128)
        ensures
            bytes == self.0,
    {
        self.0 as u128
    }
}

/// A span of time: whole seconds and the nanoseconds beyond them.
#[derive(Debug, Clone, Copy, PartialEq, Eq)]
pub struct Duration {
    pub secs: u64,
    pub nanos: u32,
}

impl Duration {
    /// The span in whole milliseconds, as a mathematical integer.
    pub open spec fn spec_millis(self) -> int {
        self.secs * 1000 + self.nanos / 1_000_000
    }

    /// The span in whole milliseconds; what is left of a millisecond is cut.
    pub fn as_millis(&self) -> (millis: u128)
        ensures
            millis == self.spec_millis(),
    {
        (self.secs as u128) * 1000 + (self.nanos / 1_000_000) as u128
    }

    pub fn from_secs(secs: u64) -> (d: Duration)
        ensures
            d == (Duration { secs, nanos: 0 }),
    {
        Duration { secs, nanos: 0 }
    }
}

/// One logical producer or consumer endpoint.
#[derive(Debug, Clone)]
pub struct KafkaBrokerCfg {
    pub brokers: String,
    pub topic: String,
    pub ssl: bool,
    pub message_timeout: Duration,
    pub consumer_group_id: String,
}

pub fn default_body_size() -> (size: ByteSize)
    ensures
        size.0 == 6 * 1024,
{
    ByteSize(6 * 1024)
}

pub fn default_messages_number() -> (n: u32)
    ensures
        n == 1,
{
    1
}

pub fn default_timeout() -> (d: Duration)
    ensures
        d == (Duration { secs: 60, nanos: 0 }),
{
    Duration::from_secs(60)
}

pub fn default_buffering_ms() -> (ms: u32)
    ensures
        ms == 5,
{
    5
}

#[derive(Debug, Clone)]
pub struct NewExperiment {
    pub listeners: Vec<KafkaBrokerCfg>,
}

#[derive(Debug, Clone)]
pub struct RestoreExperiment {
    pub experiment_uuid: u128,
    pub listeners: Vec<KafkaBrokerCfg>,
}

#[derive(Debug, Clone)]
pub struct NewSimple {
    pub source: KafkaBrokerCfg,
    pub dest: KafkaBrokerCfg,
    pub consumer_group_id: String,
    pub message_body_size: ByteSize,
    pub messages_number: u32,
    pub timeout: Duration,
}

#[derive(Debug, Clone, Copy, PartialEq, Eq)]
pub struct BeginResponse {
    pub experiment_uuid: u128,
}

#[derive(Debug, Clone, Copy, PartialEq, Eq)]
pub struct EndRequest {
    pub experiment_uuid: u128,
}

#[derive(Debug, Clone, Copy, PartialEq, Eq)]
pub struct EndResponse {
    pub experiment_uuid: u128,
}

#[derive(Debug, Clone, Copy, PartialEq, Eq)]
pub struct InsightsRequest {
    pub experiment_uuid: u128,
}

/// What happened to a message.
#[derive(Debug, Clone, PartialEq, Eq)]
pub enum EventType {
    Sent,
    KafkaTimestampSet { consumer_group: String },
    Received { consumer_group: String },
}

/// One timestamped fact about a message.
#[derive(Debug, Clone, PartialEq, Eq)]
pub struct MessageEvent {
    pub message_uuid: u128,
    pub timestamp_millis: u128,
    pub brokers: String,
    pub topic: String,
    pub event_type: EventType,
}

/// One isolated measurement run.
#[derive(Debug, Clone)]
pub struct Experiment {
    pub uuid: u128,
    pub consumers: Vec<KafkaBrokerCfg>,
    pub experiment_start_timestamp_millis: u128,
    pub experiment_end_timestamp_millis: Option<u128>,
}

impl KafkaBrokerCfg {
    /// A copy of the configuration.
    pub fn copy(&self) -> (c: KafkaBrokerCfg)
        ensures
            c == *self,
    {
        KafkaBrokerCfg {
            brokers: self.brokers.clone(),
            topic: self.topic.clone(),
            ssl: self.ssl,
            message_timeout: self.message_timeout,
            consumer_group_id: self.consumer_group_id.clone(),
        }
    }
}

impl EventType {
    /// A copy of the kind.
    pub fn copy(&self) -> (c: EventType)
        ensures
            c == *self,
    {
        match self {
            EventType::Sent => EventType::Sent,
            EventType::KafkaTimestampSet { consumer_group } => EventType::KafkaTimestampSet {
                consumer_group: consumer_group.clone(),
            },
            EventType::Received { consumer_group } => EventType::Received {
                consumer_group: consumer_group.clone(),
            },
        }
    }
}

impl MessageEvent {
    /// A copy of the event.
    pub fn copy(&self) -> (c: MessageEvent)
        ensures
            c == *self,
    {
        MessageEvent {
            message_uuid: self.message_uuid,
            timestamp_millis: self.timestamp_millis,
            brokers: self.brokers.clone(),
            topic: self.topic.clone(),
            event_type: self.event_type.copy(),
        }
    }
}

/// A copy of a list of events.
pub fn copy_events(events: &Vec<MessageEvent>) -> (copy: Vec<MessageEvent>)
    ensures
        copy@ == events@,
{
    let mut copy: Vec<MessageEvent> = Vec::new();
    let mut i: usize = 0;
    while i < events.len()
        invariant
            i <= events.len(),
            copy@ == events@.take(i as int),
        decreases events.len() - i,
    {
        copy.push(events[i].copy());
        proof {
            assert(events@.take(i + 1) =~= events@.take(i as int).push(events@[i as int]));
        }
        i = i + 1;
    }
    proof {
        assert(events@.take(events.len() as int) =~= events@);
    }
    copy
}

impl Experiment {
    /// Whether two experiments say the same: the same id, the same
    /// configurations in the same order, the same times.
    pub open spec fn same_as(self, other: Experiment) -> bool {
        &&& self.uuid == other.uuid
        &&& self.consumers@ == other.consumers@
        &&& self.experiment_start_timestamp_millis == other.experiment_start_timestamp_millis
        &&& self.experiment_end_timestamp_millis == other.experiment_end_timestamp_millis
    }

    /// A copy of the experiment.
    pub fn copy(&self) -> (c: Experiment)
        ensures
            c.same_as(*self),
    {
        let mut consumers: Vec<KafkaBrokerCfg> = Vec::new();
        let mut i: usize = 0;
        while i < self.consumers.len()
            invariant
                i <= self.consumers.len(),
                consumers@ == self.consumers@.take(i as int),
            decreases self.consumers.len() - i,
        {
            consumers.push(self.consumers[i].copy());
            proof {
                assert(self.consumers@.take(i + 1) =~= self.consumers@.take(i as int).push(
                    self.consumers@[i as int],
                ));
            }
            i = i + 1;
        }
        proof {
            assert(self.consumers@.take(self.consumers.len() as int) =~= self.consumers@);
        }
        Experiment {
            uuid: self.uuid,
            consumers,
            experiment_start_timestamp_millis: self.experiment_start_timestamp_millis,
            experiment_end_timestamp_millis: self.experiment_end_timestamp_millis,
        }
    }

    /// An experiment that started at `now`, a reading of the clock, and has
    /// not ended.
    pub fn new(uuid: u128, consumers: Vec<KafkaBrokerCfg>, now: u128) -> (e: Experiment)
        ensures
            e == (Experiment {
                uuid,
                consumers,
                experiment_start_timestamp_millis: now,
                experiment_end_timestamp_millis: None,
            }),
    {
        Experiment {
            uuid,
            consumers,
            experiment_start_timestamp_millis: now,
            experiment_end_timestamp_millis: None,
        }
    }
}

/// One emitted payload.
#[derive(Debug, Clone, Copy, PartialEq, Eq)]
pub struct Message {
    pub uuid: u128,
    pub bytes_size: ByteSize,
}

/// The accounting of one send request.
#[derive(Debug, Clone, Copy, PartialEq, Eq)]
pub struct SentMessage {
    pub experiment_uuid: u128,
    pub message_number: usize,
    /// Bytes of each sent message.
    pub bytes_size: usize,
    /// Sum of the bytes that were delivered.
    pub total_sent_bytes: usize,
    pub total_sent_bytes_human_readable: ByteSize,
    pub delivery_failures: usize,
}

/// Everything recorded of one experiment.
#[derive(Debug, Clone)]
pub struct Insights {
    pub messages: Vec<Message>,
    pub experiment: Experiment,
    pub events: Vec<MessageEvent>,
}

/// A summary of one experiment.
#[derive(Debug, Clone)]
pub struct ExperimentOverview {
    pub experiment: Experiment,
    pub messages: usize,
    pub events: usize,
}

/// A request to publish messages.
#[derive(Debug, Clone)]
pub struct SendMessage {
    pub buffering_ms: u32,
    pub brokers: String,
    pub topic: String,
    pub ssl: bool,
    pub message_timeout: Duration,
    pub body_size: ByteSize,
    pub messages_number: usize,
    pub experiment_uuid: u128,
    pub blocking: bool,
    pub async_mode: bool,
}

/// How many messages a job publishes per span of time.
#[derive(Debug, Clone, Copy, PartialEq, Eq)]
pub struct MessageRate {
    pub messages: usize,
    pub per: Duration,
}

/// A request to publish messages in batches at a given rate.
#[derive(Debug, Clone)]
pub struct SendMessageTask {
    pub buffering_ms: u32,
    pub brokers: String,
    pub topic: String,
    pub ssl: bool,
    pub message_timeout: Duration,
    pub body_size: ByteSize,
    pub messages_number: usize,
    pub experiment_uuid: u128,
    pub message_rate: MessageRate,
}

/// Why a request could not be served.
#[derive(Debug, Clone, Copy, PartialEq, Eq)]
pub enum ResponseError {
    NoMessagesDelivered,
    ExperimentNotFound,
}

impl ResponseError {
    /// The HTTP status that stands for the error: 404 where the experiment
    /// is unknown, 500 otherwise.
    pub fn status_code(&self) -> (code: u16)
        ensures
            code == (match *self {
                ResponseError::ExperimentNotFound => 404u16,
                ResponseError::NoMessagesDelivered => 500u16,
            }),
    {
        match *self {
            ResponseError::ExperimentNotFound => 404,
            ResponseError::NoMessagesDelivered => 500,
        }
    }
}

} // verus!
