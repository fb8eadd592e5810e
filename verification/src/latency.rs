//! Latency correlation: pairs a source-side and a destination-side event of
//! the same message and yields the time between them.

use std::collections::HashMap;
use vstd::prelude::*;
use crate::models::{EventType, Message, MessageEvent, ResponseError};
use crate::models::measurements::{
    BytesSizeRequest, KafkaLatencyRequest, KafkaLatencyRequestBroker, SendReceiveLatencyRequest,
    SendReceiveLatencyRequestBrokerSource,
};
use crate::state::MessagesState;

verus! {

broadcast use vstd::std_specs::hash::group_hash_axioms;

/// Which events one side of a correlation takes: those of a topic on given
/// brokers that were received by `group`, or, with no group, those that were
/// sent.
pub struct Side {
    pub brokers: Seq<char>,
    pub topic: Seq<char>,
    pub group: Option<Seq<char>>,
}

impl Side {
    pub open spec fn takes(self, event: MessageEvent) -> bool {
        &&& event.topic@ == self.topic
        &&& event.brokers@ == self.brokers
        &&& match self.group {
            Some(group) => match event.event_type {
                EventType::Received { consumer_group } => consumer_group@ == group,
                _ => false,
            },
            None => event.event_type is Sent,
        }
    }
}

impl KafkaLatencyRequestBroker {
    pub open spec fn side(self) -> Side {
        Side { brokers: self.brokers@, topic: self.topic@, group: Some(self.consumer_group@) }
    }
}

impl SendReceiveLatencyRequestBrokerSource {
    pub open spec fn side(self) -> Side {
        Side { brokers: self.brokers@, topic: self.topic@, group: None }
    }
}

/// The timestamp of the last event of `events` that `source` takes for the
/// message `m`, if there is one: a later source event replaces an earlier.
pub open spec fn source_timestamp(events: Seq<MessageEvent>, source: Side, m: u128) -> Option<u128>
    decreases events.len(),
{
    if events.len() == 0 {
        None
    } else if source.takes(events.last()) && events.last().message_uuid == m {
        Some(events.last().timestamp_millis)
    } else {
        source_timestamp(events.drop_last(), source, m)
    }
}

/// What one destination event contributes: the time since the source
/// timestamp of its message, or nothing where the event is not taken, has
/// no source, or is earlier than its source.
pub open spec fn latency_of(event: MessageEvent, all: Seq<MessageEvent>, source: Side, dest: Side)
    -> Option<u128> {
    if dest.takes(event) {
        match source_timestamp(all, source, event.message_uuid) {
            Some(sent) => if event.timestamp_millis >= sent {
                Some((event.timestamp_millis - sent) as u128)
            } else {
                None
            },
            None => None,
        }
    } else {
        None
    }
}

/// The latencies that the events of `prefix` contribute, in their order,
/// with the source timestamps taken from `all`.
pub open spec fn latencies_over(
    all: Seq<MessageEvent>,
    prefix: Seq<MessageEvent>,
    source: Side,
    dest: Side,
) -> Seq<u128>
    decreases prefix.len(),
{
    if prefix.len() == 0 {
        Seq::empty()
    } else {
        let rest = latencies_over(all, prefix.drop_last(), source, dest);
        match latency_of(prefix.last(), all, source, dest) {
            Some(latency) => rest.push(latency),
            None => rest,
        }
    }
}

/// The latencies between the source side and the destination side of
/// `events`, one for each destination event that has a source no later than
/// itself, in the order of the destination events.
pub open spec fn latencies(events: Seq<MessageEvent>, source: Side, dest: Side) -> Seq<u128> {
    latencies_over(events, events, source, dest)
}

fn side_takes(
    event: &MessageEvent,
    brokers: &String,
    topic: &String,
    group: Option<&String>,
) -> (taken: bool)
    ensures
        taken == (Side {
            brokers: brokers@,
            topic: topic@,
            group: match group {
                Some(g) => Some(g@),
                None => None,
            },
        }).takes(*event),
{
    let kind = match group {
        Some(wanted) => match &event.event_type {
            EventType::Received { consumer_group } => *consumer_group == *wanted,
            _ => false,
        },
        None => match &event.event_type {
            EventType::Sent => true,
            _ => false,
        },
    };
    kind && event.topic == *topic && event.brokers == *brokers
}

fn correlate(
    events: &Vec<MessageEvent>,
    source_brokers: &String,
    source_topic: &String,
    source_group: Option<&String>,
    dest: &KafkaLatencyRequestBroker,
) -> (result: Vec<u128>)
    ensures
        result@ == latencies(
            events@,
            Side {
                brokers: source_brokers@,
                topic: source_topic@,
                group: match source_group {
                    Some(g) => Some(g@),
                    None => None,
                },
            },
            dest.side(),
        ),
{
    let ghost source = Side {
        brokers: source_brokers@,
        topic: source_topic@,
        group: match source_group {
            Some(g) => Some(g@),
            None => None,
        },
    };
    let mut source_timestamps: HashMap<u128, u128> = HashMap::new();
    let mut i: usize = 0;
    while i < events.len()
        invariant
            i <= events.len(),
            forall|m: u128|
                #[trigger] source_timestamp(events@.take(i as int), source, m) == (
                if source_timestamps@.contains_key(m) {
                    Some(source_timestamps@[m])
                } else {
                    None
                }),
            source == (Side {
                brokers: source_brokers@,
                topic: source_topic@,
                group: match source_group {
                    Some(g) => Some(g@),
                    None => None,
                },
            }),
        decreases events.len() - i,
    {
        let event = &events[i];
        let ghost before = source_timestamps@;
        if side_takes(event, source_brokers, source_topic, source_group) {
            source_timestamps.insert(event.message_uuid, event.timestamp_millis);
        }
        proof {
            let next = events@.take(i + 1);
            assert(next.drop_last() =~= events@.take(i as int));
            assert(next.last() == events@[i as int]);
            assert forall|m: u128|
                #[trigger] source_timestamp(next, source, m) == (if source_timestamps@.contains_key(
                    m,
                ) {
                    Some(source_timestamps@[m])
                } else {
                    None
                }) by {
                let was = source_timestamp(events@.take(i as int), source, m);
                assert(was == (if before.contains_key(m) {
                    Some(before[m])
                } else {
                    None::<u128>
                }));
            }
        }
        i = i + 1;
    }
    proof {
        assert(events@.take(events.len() as int) =~= events@);
    }
    let mut result: Vec<u128> = Vec::new();
    let mut j: usize = 0;
    while j < events.len()
        invariant
            j <= events.len(),
            result@ == latencies_over(events@, events@.take(j as int), source, dest.side()),
            forall|m: u128|
                #[trigger] source_timestamp(events@, source, m) == (
                if source_timestamps@.contains_key(m) {
                    Some(source_timestamps@[m])
                } else {
                    None
                }),
        decreases events.len() - j,
    {
        let event = &events[j];
        proof {
            let next = events@.take(j + 1);
            assert(next.drop_last() =~= events@.take(j as int));
            assert(next.last() == events@[j as int]);
            let at = source_timestamp(events@, source, event.message_uuid);
            assert(at == (if source_timestamps@.contains_key(event.message_uuid) {
                Some(source_timestamps@[event.message_uuid])
            } else {
                None::<u128>
            }));
        }
        if side_takes(event, &dest.brokers, &dest.topic, Some(&dest.consumer_group)) {
            match source_timestamps.get(&event.message_uuid) {
                Some(sent) => {
                    if event.timestamp_millis >= *sent {
                        result.push(event.timestamp_millis - *sent);
                    }
                },
                None => {},
            }
        }
        j = j + 1;
    }
    proof {
        assert(events@.take(events.len() as int) =~= events@);
    }
    result
}

/// The time from the reception of each message on the source side to its
/// reception on the destination side. A destination event whose message
/// has no source event, or whose time is before that of its source, yields
/// nothing.
pub fn kafka_latencies_of(
    events: &Vec<MessageEvent>,
    source: &KafkaLatencyRequestBroker,
    dest: &KafkaLatencyRequestBroker,
) -> (result: Vec<u128>)
    ensures
        result@ == latencies(events@, source.side(), dest.side()),
{
    correlate(events, &source.brokers, &source.topic, Some(&source.consumer_group), dest)
}

/// The time from the sending of each message to its reception on the
/// destination side, found as in `kafka_latencies_of`.
pub fn send_receive_latencies_of(
    events: &Vec<MessageEvent>,
    source: &SendReceiveLatencyRequestBrokerSource,
    dest: &KafkaLatencyRequestBroker,
) -> (result: Vec<u128>)
    ensures
        result@ == latencies(events@, source.side(), dest.side()),
{
    correlate(events, &source.brokers, &source.topic, None, dest)
}

fn events_of<'a>(state: &'a MessagesState, experiment_uuid: u128) -> (events: Option<
    &'a Vec<MessageEvent>,
>)
    ensures
        match events {
            Some(list) => list@ == state@.events_of(experiment_uuid),
            None => state@.events_of(experiment_uuid) == Seq::<MessageEvent>::empty(),
        },
{
    state.events.get(&experiment_uuid)
}

/// The latencies between the receptions on the source side and those on
/// the destination side of an experiment, as `kafka_latencies_of` finds
/// them in its events. An experiment that is not registered is not found.
pub fn kafka_latencies(state: &MessagesState, request: &KafkaLatencyRequest) -> (result: Result<
    Vec<u128>,
    ResponseError,
>)
    ensures
        match result {
            Ok(found) => state@.experiments.contains_key(request.experiment_uuid) && found@
                == latencies(
                state@.events_of(request.experiment_uuid),
                request.source.side(),
                request.dest.side(),
            ),
            Err(e) => e == ResponseError::ExperimentNotFound && !state@.experiments.contains_key(
                request.experiment_uuid,
            ),
        },
{
    if !state.has_experiment(request.experiment_uuid) {
        return Err(ResponseError::ExperimentNotFound);
    }
    match events_of(state, request.experiment_uuid) {
        Some(events) => Ok(kafka_latencies_of(events, &request.source, &request.dest)),
        None => Ok(Vec::new()),
    }
}

/// The latencies between the sending and the reception on the destination
/// side of an experiment, as `send_receive_latencies_of` finds them in its
/// events. An experiment that is not registered is not found.
pub fn send_receive_latencies(state: &MessagesState, request: &SendReceiveLatencyRequest) -> (result:
    Result<Vec<u128>, ResponseError>)
    ensures
        match result {
            Ok(found) => state@.experiments.contains_key(request.experiment_uuid) && found@
                == latencies(
                state@.events_of(request.experiment_uuid),
                request.source.side(),
                request.dest.side(),
            ),
            Err(e) => e == ResponseError::ExperimentNotFound && !state@.experiments.contains_key(
                request.experiment_uuid,
            ),
        },
{
    if !state.has_experiment(request.experiment_uuid) {
        return Err(ResponseError::ExperimentNotFound);
    }
    match events_of(state, request.experiment_uuid) {
        Some(events) => Ok(send_receive_latencies_of(events, &request.source, &request.dest)),
        None => Ok(Vec::new()),
    }
}

/// The sizes in bytes of the messages of an experiment, in the order in
/// which the messages were inserted. An experiment that is not registered
/// is not found.
pub fn messaged_bytes_size(state: &MessagesState, request: &BytesSizeRequest) -> (result: Result<
    Vec<u128>,
    ResponseError,
>)
    ensures
        match result {
            Ok(sizes) => state@.experiments.contains_key(request.experiment_uuid) && sizes@
                == state@.ordered_messages(request.experiment_uuid).map_values(
                |message: Message| message.bytes_size.0 as u128,
            ),
            Err(e) => e == ResponseError::ExperimentNotFound && !state@.experiments.contains_key(
                request.experiment_uuid,
            ),
        },
{
    if !state.has_experiment(request.experiment_uuid) {
        return Err(ResponseError::ExperimentNotFound);
    }
    let messages = state.ordered_messages(request.experiment_uuid);
    let ghost want = messages@.map_values(|message: Message| message.bytes_size.0 as u128);
    let mut sizes: Vec<u128> = Vec::new();
    let mut i: usize = 0;
    while i < messages.len()
        invariant
            i <= messages.len(),
            want == messages@.map_values(|message: Message| message.bytes_size.0 as u128),
            sizes@ == want.take(i as int),
        decreases messages.len() - i,
    {
        sizes.push(messages[i].bytes_size.as_bytes());
        proof {
            assert(want.take(i + 1) =~= want.take(i as int).push(want[i as int]));
        }
        i = i + 1;
    }
    proof {
        assert(want.take(messages.len() as int) =~= want);
    }
    Ok(sizes)
}

} // verus!
