//! The consuming side: the supervisor that keeps, for each experiment, the
//! handles by which its background loops are cancelled, the settings of a
//! loop's client, and what one turn of a loop records.

use std::collections::HashMap;
use vstd::prelude::*;
use vstd::string::*;
use vstd::utf8::{decode_utf8, valid_utf8};
use crate::ids::{parsed_uuid, try_parse_uuid};
use crate::config::{new_config, no_settings, set_config, settings_of};
use crate::decimal::{decimal, decimal_text};
use crate::models::{
    ByteSize, EventType, KafkaBrokerCfg, Message, MessageEvent, EXPERIMENT_UUID_HEADER,
    MESSAGE_UUID_HEADER,
};
use crate::state::{IndexModel, MessagesState};

verus! {

broadcast use vstd::std_specs::hash::group_hash_axioms;

/// `tokio::task::AbortHandle`, the handle by which a spawned task is
/// cancelled. It is carried through and never looked into.
#[verifier::external_type_specification]
#[verifier::external_body]
pub struct ExAbortHandle(tokio::task::AbortHandle);

/// Cancels a task with `tokio::task::AbortHandle::abort`. The call returns
/// for every handle, also where the task has ended or was cancelled before;
/// nothing is claimed of the task.
#[verifier::external_body]
fn abort_task(handle: &tokio::task::AbortHandle) {
    handle.abort();
}

/// Experiment id to the handles of its live loops.
#[derive(Debug, Clone)]
pub struct LoopHandler {
    pub handles: HashMap<u128, Vec<tokio::task::AbortHandle>>,
}

impl View for LoopHandler {
    type V = Map<u128, Seq<tokio::task::AbortHandle>>;

    open spec fn view(&self) -> Map<u128, Seq<tokio::task::AbortHandle>> {
        self.handles@.map_values(|v: Vec<tokio::task::AbortHandle>| v@)
    }
}

/// The handles kept for `uuid`; none where the experiment has no entry.
pub open spec fn handles_of(loops: Map<u128, Seq<tokio::task::AbortHandle>>, uuid: u128) -> Seq<
    tokio::task::AbortHandle,
> {
    if loops.contains_key(uuid) {
        loops[uuid]
    } else {
        Seq::empty()
    }
}

impl LoopHandler {
    pub fn new() -> (loops: LoopHandler)
        ensures
            loops@ == Map::<u128, Seq<tokio::task::AbortHandle>>::empty(),
    {
        let loops = LoopHandler { handles: HashMap::new() };
        proof {
            assert(loops@ =~= Map::empty());
        }
        loops
    }

    /// Keeps `handles` as the loops of `uuid`, in place of what was kept
    /// for it before.
    pub fn register_experiment(&mut self, uuid: u128, handles: Vec<tokio::task::AbortHandle>)
        ensures
            final(self)@ == old(self)@.insert(uuid, handles@),
    {
        self.handles.insert(uuid, handles);
        proof {
            assert(final(self)@ =~= old(self)@.insert(uuid, handles@));
        }
    }

    /// Adds one handle to the loops of `uuid`.
    pub fn add_handle(&mut self, uuid: u128, handle: tokio::task::AbortHandle)
        ensures
            final(self)@ == old(self)@.insert(uuid, handles_of(old(self)@, uuid).push(handle)),
    {
        let mut list = match self.handles.remove(&uuid) {
            Some(list) => list,
            None => Vec::new(),
        };
        list.push(handle);
        self.handles.insert(uuid, list);
        proof {
            assert(final(self)@ =~= old(self)@.insert(
                uuid,
                handles_of(old(self)@, uuid).push(handle),
            ));
        }
    }

    /// Adds handles to the loops of `uuid`, after those it has, in their
    /// order.
    pub fn add_handles(&mut self, uuid: u128, handles: Vec<tokio::task::AbortHandle>)
        ensures
            final(self)@ == old(self)@.insert(uuid, handles_of(old(self)@, uuid) + handles@),
    {
        let mut list = match self.handles.remove(&uuid) {
            Some(list) => list,
            None => Vec::new(),
        };
        let ghost added = handles@;
        let mut rest = handles;
        list.append(&mut rest);
        self.handles.insert(uuid, list);
        proof {
            assert(final(self)@ =~= old(self)@.insert(uuid, handles_of(old(self)@, uuid) + added));
        }
    }

    /// Forgets the loops of `uuid` and cancels each of them. Without an
    /// entry for `uuid` nothing happens.
    pub fn deregister_experiment(&mut self, uuid: u128)
        ensures
            final(self)@ == old(self)@.remove(uuid),
    {
        match self.handles.remove(&uuid) {
            Some(handles) => {
                let mut i: usize = 0;
                while i < handles.len()
                    invariant
                        i <= handles.len(),
                    decreases handles.len() - i,
                {
                    abort_task(&handles[i]);
                    i = i + 1;
                }
            },
            None => {},
        }
        proof {
            assert(final(self)@ =~= old(self)@.remove(uuid));
        }
    }

    /// How many loops are kept for `uuid`.
    pub fn live_loops(&self, uuid: u128) -> (n: usize)
        ensures
            n == handles_of(self@, uuid).len(),
    {
        match self.handles.get(&uuid) {
            Some(list) => list.len(),
            None => 0,
        }
    }
}

impl Default for LoopHandler {
    fn default() -> (loops: LoopHandler)
        ensures
            loops@ == Map::<u128, Seq<tokio::task::AbortHandle>>::empty(),
    {
        LoopHandler::new()
    }
}

/// The consumer supervisor.
#[derive(Debug, Clone)]
pub struct Consumers {
    pub loops: LoopHandler,
}

impl Consumers {
    pub fn new() -> (consumers: Consumers)
        ensures
            consumers.loops@ == Map::<u128, Seq<tokio::task::AbortHandle>>::empty(),
    {
        Consumers { loops: LoopHandler::new() }
    }

    /// Takes the loop that was spawned for the experiment `uuid` under
    /// supervision: its handle joins those of the experiment.
    pub fn start(&mut self, uuid: u128, handle: tokio::task::AbortHandle)
        ensures
            final(self).loops@ == old(self).loops@.insert(
                uuid,
                handles_of(old(self).loops@, uuid).push(handle),
            ),
    {
        self.loops.add_handle(uuid, handle);
    }

    /// Takes the loops that were spawned for the experiment `uuid` under
    /// supervision: their handles join those of the experiment, in their
    /// order.
    pub fn start_all(&mut self, uuid: u128, handles: Vec<tokio::task::AbortHandle>)
        ensures
            final(self).loops@ == old(self).loops@.insert(
                uuid,
                handles_of(old(self).loops@, uuid) + handles@,
            ),
    {
        self.loops.add_handles(uuid, handles);
    }

    /// Cancels every loop of the experiment `uuid` and forgets them.
    pub fn stop(&mut self, uuid: u128)
        ensures
            final(self).loops@ == old(self).loops@.remove(uuid),
    {
        self.loops.deregister_experiment(uuid);
    }
}

/// One consume loop to start: the endpoint it reads, and whether it replays
/// from the earliest record or reads only new ones.
#[derive(Debug, Clone)]
pub struct LoopStart {
    pub cfg: KafkaBrokerCfg,
    pub offset_reset: bool,
}

/// The loops of an experiment: one for each configuration, in their order,
/// all in the same mode.
pub open spec fn loop_starts(consumers: Seq<KafkaBrokerCfg>, offset_reset: bool) -> Seq<LoopStart> {
    Seq::new(consumers.len(), |i: int| LoopStart { cfg: consumers[i], offset_reset })
}

/// Lists the loops to start for an experiment with these configurations.
pub fn consume_loops(consumers: &Vec<KafkaBrokerCfg>, offset_reset: bool) -> (starts: Vec<LoopStart>)
    ensures
        starts@ == loop_starts(consumers@, offset_reset),
{
    let mut starts: Vec<LoopStart> = Vec::new();
    let mut i: usize = 0;
    while i < consumers.len()
        invariant
            i <= consumers.len(),
            starts@ == loop_starts(consumers@, offset_reset).take(i as int),
        decreases consumers.len() - i,
    {
        starts.push(LoopStart { cfg: consumers[i].copy(), offset_reset });
        proof {
            let all = loop_starts(consumers@, offset_reset);
            assert(all.take(i + 1) =~= all.take(i as int).push(all[i as int]));
        }
        i = i + 1;
    }
    proof {
        let all = loop_starts(consumers@, offset_reset);
        assert(all.take(consumers.len() as int) =~= all);
    }
    starts
}

/// The settings of the client of a consume loop: its group, where to
/// connect, a poll interval of twice the message timeout, a session timeout
/// of the message timeout and no automatic commit; where TLS is asked for,
/// TLS without verification of the certificate; and, for a replay, reading
/// from the earliest record.
pub open spec fn consumer_settings(cfg: KafkaBrokerCfg, offset_reset: bool) -> Map<
    Seq<char>,
    Seq<char>,
> {
    let plain = no_settings().insert(
        "group.id"@,
        cfg.consumer_group_id@,
    ).insert("bootstrap.servers"@, cfg.brokers@).insert(
        "max.poll.interval.ms"@,
        decimal_text((cfg.message_timeout.spec_millis() * 2) as nat),
    ).insert(
        "session.timeout.ms"@,
        decimal_text(cfg.message_timeout.spec_millis() as nat),
    ).insert("enable.auto.commit"@, "false"@);
    let secured = if cfg.ssl {
        plain.insert("security.protocol"@, "ssl"@).insert(
            "enable.ssl.certificate.verification"@,
            "false"@,
        )
    } else {
        plain
    };
    if offset_reset {
        secured.insert("auto.offset.reset"@, "earliest"@)
    } else {
        secured
    }
}

/// The configuration from which the client of a consume loop is created:
/// it holds the settings of `consumer_settings` and no others.
pub fn consumer_config(cfg: &KafkaBrokerCfg, offset_reset: bool) -> (config: rdkafka::ClientConfig)
    ensures
        settings_of(config) == consumer_settings(*cfg, offset_reset),
{
    let mut config = new_config();
    let millis = cfg.message_timeout.as_millis();
    set_config(&mut config, "group.id", cfg.consumer_group_id.as_str());
    set_config(&mut config, "bootstrap.servers", cfg.brokers.as_str());
    let poll = decimal(millis * 2);
    set_config(&mut config, "max.poll.interval.ms", poll.as_str());
    let session = decimal(millis);
    set_config(&mut config, "session.timeout.ms", session.as_str());
    set_config(&mut config, "enable.auto.commit", "false");
    if cfg.ssl {
        set_config(&mut config, "security.protocol", "ssl");
        set_config(&mut config, "enable.ssl.certificate.verification", "false");
    }
    if offset_reset {
        set_config(&mut config, "auto.offset.reset", "earliest");
    }
    config
}

/// One header of a consumed record.
#[derive(Debug, Clone)]
pub struct RecordHeader {
    pub key: String,
    pub value: Option<Vec<u8>>,
}

/// The time a broker gave a record, in milliseconds since the Unix epoch.
#[derive(Debug, Clone, Copy, PartialEq, Eq)]
pub enum Timestamp {
    /// The broker gave none.
    NotAvailable,
    /// When the message was created.
    CreateTime(i64),
    /// When the message was appended to the log.
    LogAppendTime(i64),
}

impl Timestamp {
    /// The milliseconds of the time, where the broker gave one: `-1` stands
    /// for none.
    pub open spec fn millis(self) -> Option<i64> {
        match self {
            Timestamp::NotAvailable => None,
            Timestamp::CreateTime(t) | Timestamp::LogAppendTime(t) => if t == -1 {
                None
            } else {
                Some(t)
            },
        }
    }
}

/// Reads the milliseconds of a time with
/// `rdkafka::message::Timestamp::to_millis`, on the time written as the
/// broker client's own type. It gives the milliseconds of either kind of
/// time, and nothing where the time is not available or is `-1`.
#[verifier::external_body]
fn timestamp_millis(timestamp: Timestamp) -> (millis: Option<i64>)
    ensures
        millis == timestamp.millis(),
{
    match timestamp {
        Timestamp::NotAvailable => rdkafka::message::Timestamp::NotAvailable.to_millis(),
        Timestamp::CreateTime(t) => rdkafka::message::Timestamp::CreateTime(t).to_millis(),
        Timestamp::LogAppendTime(t) => rdkafka::message::Timestamp::LogAppendTime(t).to_millis(),
    }
}

/// What a consume loop reads of one record.
#[derive(Debug, Clone)]
pub struct ConsumedRecord {
    pub headers: Vec<RecordHeader>,
    pub payload_len: usize,
    pub topic: String,
    /// The time the broker gave the record.
    pub timestamp: Timestamp,
}

/// Decodes bytes with `std::str::from_utf8` and copies the text. There is a
/// text exactly where the bytes are valid UTF-8, and it is what they encode.
#[verifier::external_body]
fn utf8_text(bytes: &Vec<u8>) -> (text: Option<String>)
    ensures
        text is Some <==> valid_utf8(bytes@),
        text is Some ==> text->0@ == decode_utf8(bytes@),
{
    match std::str::from_utf8(bytes.as_slice()) {
        Ok(text) => Some(text.to_string()),
        Err(_) => None,
    }
}

impl RecordHeader {
    /// The value of the header as text, where it has one that is valid
    /// UTF-8.
    pub open spec fn text(self) -> Option<Seq<char>> {
        match self.value {
            Some(bytes) => if valid_utf8(bytes@) {
                Some(decode_utf8(bytes@))
            } else {
                None
            },
            None => None,
        }
    }
}

/// The text of the last header of that name that has one.
pub open spec fn header_value(headers: Seq<RecordHeader>, key: Seq<char>) -> Option<Seq<char>>
    decreases headers.len(),
{
    if headers.len() == 0 {
        None
    } else if headers.last().key@ == key && headers.last().text() is Some {
        headers.last().text()
    } else {
        header_value(headers.drop_last(), key)
    }
}

/// The id that the header of that name carries, where the header is there
/// and its text is a UUID.
pub open spec fn header_uuid(headers: Seq<RecordHeader>, key: Seq<char>) -> Option<u128> {
    match header_value(headers, key) {
        Some(text) => parsed_uuid(text),
        None => None,
    }
}

/// The ids of the message and of the experiment that a record carries in
/// its headers, where it carries both.
pub open spec fn correlation_of(headers: Seq<RecordHeader>) -> Option<(u128, u128)> {
    match (
        header_uuid(headers, MESSAGE_UUID_HEADER@),
        header_uuid(headers, EXPERIMENT_UUID_HEADER@),
    ) {
        (Some(message), Some(experiment)) => Some((message, experiment)),
        _ => None,
    }
}

fn find_header(headers: &Vec<RecordHeader>, key: &str) -> (text: Option<String>)
    ensures
        match text {
            Some(t) => header_value(headers@, key@) == Some(t@),
            None => header_value(headers@, key@) is None,
        },
{
    let wanted = String::from_str(key);
    let mut i: usize = headers.len();
    proof {
        assert(headers@.take(headers.len() as int) =~= headers@);
    }
    while i > 0
        invariant
            i <= headers.len(),
            wanted@ == key@,
            header_value(headers@, key@) == header_value(headers@.take(i as int), key@),
        decreases i,
    {
        proof {
            assert(headers@.take(i as int).drop_last() =~= headers@.take(i - 1));
            assert(headers@.take(i as int).last() == headers@[i - 1]);
        }
        let header = &headers[i - 1];
        if header.key == wanted {
            match &header.value {
                Some(bytes) => {
                    match utf8_text(bytes) {
                        Some(text) => {
                            return Some(text);
                        },
                        None => {},
                    }
                },
                None => {},
            }
        }
        i = i - 1;
    }
    proof {
        assert(headers@.take(0).len() == 0);
    }
    None
}

fn find_uuid(headers: &Vec<RecordHeader>, key: &str) -> (id: Option<u128>)
    ensures
        id == header_uuid(headers@, key@),
{
    match find_header(headers, key) {
        Some(text) => try_parse_uuid(text.as_str()),
        None => None,
    }
}

/// Reads the ids of the message and of the experiment from the headers of a
/// record. A record without one of the two headers, or with one that is no
/// UUID, carries none.
pub fn correlation_ids(headers: &Vec<RecordHeader>) -> (ids: Option<(u128, u128)>)
    ensures
        ids == correlation_of(headers@),
{
    match find_uuid(headers, MESSAGE_UUID_HEADER) {
        Some(message) => match find_uuid(headers, EXPERIMENT_UUID_HEADER) {
            Some(experiment) => Some((message, experiment)),
            None => None,
        },
        None => None,
    }
}

/// The broker's time as an unsigned number: itself where it is not
/// negative, else wrapped round the width of the number.
pub open spec fn broker_millis(millis: i64) -> u128 {
    if millis >= 0 {
        millis as u128
    } else {
        (millis + 0x1_0000_0000_0000_0000_0000_0000_0000_0000) as u128
    }
}

fn broker_millis_of(millis: i64) -> (wide: u128)
    ensures
        wide == broker_millis(millis),
{
    if millis >= 0 {
        millis as u128
    } else {
        u128::MAX - ((-(millis + 1)) as u128)
    }
}

/// The event of a reception at `at`, or of the broker's time `at`.
pub open spec fn consumer_event(
    cfg: KafkaBrokerCfg,
    topic: String,
    message_uuid: u128,
    at: u128,
    by_broker: bool,
) -> MessageEvent {
    MessageEvent {
        message_uuid,
        timestamp_millis: at,
        brokers: cfg.brokers,
        topic,
        event_type: if by_broker {
            EventType::KafkaTimestampSet { consumer_group: cfg.consumer_group_id }
        } else {
            EventType::Received { consumer_group: cfg.consumer_group_id }
        },
    }
}

/// The index after the message of a record was offered: a message that is
/// new is inserted under the experiment, if that is registered; a message
/// that is tracked already, under this experiment or another, is not.
pub open spec fn offered(s: IndexModel, payload_len: usize, message: u128, experiment: u128)
    -> IndexModel {
    if !s.by_message.contains_key(message) && s.experiments.contains_key(experiment) {
        s.insert_message(
            Message { uuid: message, bytes_size: ByteSize(payload_len as u64) },
            experiment,
        )
    } else {
        s
    }
}

/// The index after a loop with the configuration `cfg` read, at `now`, a
/// record that carries the ids `message` and `experiment`. The message is
/// offered. Then, if it is tracked under the experiment, its reception is
/// appended, and after it the broker's time where the record has one.
/// Otherwise no event is appended.
pub open spec fn after_record(
    s: IndexModel,
    cfg: KafkaBrokerCfg,
    record: ConsumedRecord,
    message: u128,
    experiment: u128,
    now: u128,
) -> IndexModel {
    let offered = offered(s, record.payload_len, message, experiment);
    if offered.tracks(message, experiment) {
        let received = offered.append_event(
            experiment,
            consumer_event(cfg, record.topic, message, now, false),
        );
        match record.timestamp.millis() {
            Some(millis) => received.append_event(
                experiment,
                consumer_event(cfg, record.topic, message, broker_millis(millis), true),
            ),
            None => received,
        }
    } else {
        offered
    }
}

/// Whether a record with these ids is recorded: after the offer its message
/// is tracked under its experiment.
pub open spec fn is_recorded(s: IndexModel, payload_len: usize, message: u128, experiment: u128)
    -> bool {
    offered(s, payload_len, message, experiment).tracks(message, experiment)
}

/// In a well-formed index a record is recorded exactly where its message is
/// tracked under its experiment already, or is new while the experiment is
/// registered.
pub proof fn lemma_is_recorded(s: IndexModel, payload_len: usize, message: u128, experiment: u128)
    requires
        s.wf(),
    ensures
        is_recorded(s, payload_len, message, experiment) == (if s.by_message.contains_key(message) {
            s.tracks(message, experiment)
        } else {
            s.experiments.contains_key(experiment)
        }),
{
    if !s.by_message.contains_key(message) && !s.experiments.contains_key(experiment) {
        if s.tracks(message, experiment) {
            assert(s.messages[experiment].contains_key(message));
        }
    }
}

/// Records that the message `message` of the experiment `experiment` was
/// read at `now`, as `after_record` says, and returns whether it was
/// recorded.
pub fn record_received(
    state: &mut MessagesState,
    cfg: &KafkaBrokerCfg,
    record: &ConsumedRecord,
    message: u128,
    experiment: u128,
    now: u128,
) -> (recorded: bool)
    ensures
        final(state)@ == after_record(old(state)@, *cfg, *record, message, experiment, now),
        old(state)@.wf() ==> final(state)@.wf(),
        recorded == is_recorded(old(state)@, record.payload_len, message, experiment),
{
    if !state.knows_message(message) && state.has_experiment(experiment) {
        state.insert_message(
            Message { uuid: message, bytes_size: ByteSize::b(record.payload_len as u64) },
            experiment,
        );
    }
    if state.tracks(message, experiment) {
        state.append_event(
            experiment,
            MessageEvent {
                message_uuid: message,
                timestamp_millis: now,
                brokers: cfg.brokers.clone(),
                topic: record.topic.clone(),
                event_type: EventType::Received { consumer_group: cfg.consumer_group_id.clone() },
            },
        );
        match timestamp_millis(record.timestamp) {
            Some(millis) => {
                state.append_event(
                    experiment,
                    MessageEvent {
                        message_uuid: message,
                        timestamp_millis: broker_millis_of(millis),
                        brokers: cfg.brokers.clone(),
                        topic: record.topic.clone(),
                        event_type: EventType::KafkaTimestampSet {
                            consumer_group: cfg.consumer_group_id.clone(),
                        },
                    },
                );
            },
            None => {},
        }
        true
    } else {
        false
    }
}

/// One turn of a consume loop: reads the ids from the headers of the record
/// and, where it carries both, records its reception as `record_received`
/// does. A record without them is skipped and nothing changes.
pub fn consumer_loop(
    state: &mut MessagesState,
    cfg: &KafkaBrokerCfg,
    record: &ConsumedRecord,
    now: u128,
) -> (recorded: bool)
    ensures
        old(state)@.wf() ==> final(state)@.wf(),
        match correlation_of(record.headers@) {
            Some((message, experiment)) => {
                &&& final(state)@ == after_record(
                    old(state)@,
                    *cfg,
                    *record,
                    message,
                    experiment,
                    now,
                )
                &&& recorded == is_recorded(old(state)@, record.payload_len, message, experiment)
            },
            None => final(state)@ == old(state)@ && !recorded,
        },
{
    match correlation_ids(&record.headers) {
        Some((message, experiment)) => record_received(
            state,
            cfg,
            record,
            message,
            experiment,
            now,
        ),
        None => false,
    }
}

} // verus!
