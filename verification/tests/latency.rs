use kafka_emitter::latency::{
    kafka_latencies, kafka_latencies_of, messaged_bytes_size, send_receive_latencies,
    send_receive_latencies_of,
};
use kafka_emitter::models::measurements::{
    BytesSizeRequest, KafkaLatencyRequest, KafkaLatencyRequestBroker, SendReceiveLatencyRequest,
    SendReceiveLatencyRequestBrokerSource,
};
use kafka_emitter::models::{ByteSize, EventType, Experiment, Message, MessageEvent, ResponseError};
use kafka_emitter::state::MessagesState;

fn broker(brokers: &str, topic: &str, group: &str) -> KafkaLatencyRequestBroker {
    KafkaLatencyRequestBroker {
        brokers: brokers.to_string(),
        topic: topic.to_string(),
        consumer_group: group.to_string(),
    }
}

fn event(message_uuid: u128, at: u128, brokers: &str, topic: &str, kind: EventType) -> MessageEvent {
    MessageEvent {
        message_uuid,
        timestamp_millis: at,
        brokers: brokers.to_string(),
        topic: topic.to_string(),
        event_type: kind,
    }
}

fn received(message_uuid: u128, at: u128, brokers: &str, topic: &str, group: &str) -> MessageEvent {
    event(message_uuid, at, brokers, topic, EventType::Received { consumer_group: group.to_string() })
}

#[test]
fn kafka_latency_is_the_difference() {
    let events = vec![received(1, 100, "a:1", "in", "g1"), received(1, 150, "b:1", "out", "g2")];
    let got = kafka_latencies_of(&events, &broker("a:1", "in", "g1"), &broker("b:1", "out", "g2"));
    assert_eq!(got, vec![50]);
}

#[test]
fn destination_before_source_is_left_out() {
    let events = vec![received(1, 100, "a:1", "in", "g1"), received(1, 80, "b:1", "out", "g2")];
    let got = kafka_latencies_of(&events, &broker("a:1", "in", "g1"), &broker("b:1", "out", "g2"));
    assert_eq!(got, Vec::<u128>::new());
}

#[test]
fn equal_times_give_zero() {
    let events = vec![received(1, 100, "b:1", "out", "g2"), received(1, 100, "a:1", "in", "g1")];
    let got = kafka_latencies_of(&events, &broker("a:1", "in", "g1"), &broker("b:1", "out", "g2"));
    assert_eq!(got, vec![0]);
}

#[test]
fn later_source_event_replaces_the_earlier() {
    let events = vec![
        received(1, 100, "a:1", "in", "g1"),
        received(1, 150, "b:1", "out", "g2"),
        received(1, 120, "a:1", "in", "g1"),
    ];
    let got = kafka_latencies_of(&events, &broker("a:1", "in", "g1"), &broker("b:1", "out", "g2"));
    assert_eq!(got, vec![30]);
}

#[test]
fn events_are_filtered_by_group_topic_and_brokers() {
    let events = vec![
        received(1, 100, "a:1", "in", "g1"),
        received(2, 100, "a:1", "in", "other"),
        received(3, 100, "a:1", "elsewhere", "g1"),
        received(4, 100, "x:1", "in", "g1"),
        event(5, 100, "a:1", "in", EventType::Sent),
        event(6, 100, "a:1", "in", EventType::KafkaTimestampSet { consumer_group: "g1".to_string() }),
        received(1, 110, "b:1", "out", "g2"),
        received(2, 120, "b:1", "out", "g2"),
        received(3, 130, "b:1", "out", "g2"),
        received(4, 140, "b:1", "out", "g2"),
        received(5, 150, "b:1", "out", "g2"),
        received(6, 160, "b:1", "out", "g2"),
        received(1, 170, "b:1", "out", "g3"),
        received(1, 180, "b:1", "out", "g2"),
    ];
    let got = kafka_latencies_of(&events, &broker("a:1", "in", "g1"), &broker("b:1", "out", "g2"));
    assert_eq!(got, vec![10, 80]);
}

#[test]
fn send_receive_latency_starts_at_the_sent_event() {
    let events = vec![
        received(1, 90, "a:1", "in", "g1"),
        event(1, 100, "a:1", "in", EventType::Sent),
        event(2, 100, "a:1", "in", EventType::Sent),
        received(1, 130, "b:1", "out", "g2"),
        received(2, 99, "b:1", "out", "g2"),
        received(3, 500, "b:1", "out", "g2"),
    ];
    let source = SendReceiveLatencyRequestBrokerSource {
        brokers: "a:1".to_string(),
        topic: "in".to_string(),
    };
    let got = send_receive_latencies_of(&events, &source, &broker("b:1", "out", "g2"));
    assert_eq!(got, vec![30]);
}

#[test]
fn queries_of_an_unknown_experiment_are_not_found() {
    let state = MessagesState::new();
    let kafka = KafkaLatencyRequest {
        experiment_uuid: 1,
        source: broker("a:1", "in", "g1"),
        dest: broker("b:1", "out", "g2"),
    };
    assert_eq!(kafka_latencies(&state, &kafka), Err(ResponseError::ExperimentNotFound));
    let both = SendReceiveLatencyRequest {
        experiment_uuid: 1,
        source: SendReceiveLatencyRequestBrokerSource {
            brokers: "a:1".to_string(),
            topic: "in".to_string(),
        },
        dest: broker("b:1", "out", "g2"),
    };
    assert_eq!(send_receive_latencies(&state, &both), Err(ResponseError::ExperimentNotFound));
    assert_eq!(
        messaged_bytes_size(&state, &BytesSizeRequest { experiment_uuid: 1 }),
        Err(ResponseError::ExperimentNotFound)
    );
}

#[test]
fn queries_read_the_events_of_the_experiment() {
    let mut state = MessagesState::new();
    state.register_experiment(1, Experiment::new(1, Vec::new(), 0));
    let kafka = KafkaLatencyRequest {
        experiment_uuid: 1,
        source: broker("a:1", "in", "g1"),
        dest: broker("b:1", "out", "g2"),
    };
    assert_eq!(kafka_latencies(&state, &kafka), Ok(Vec::new()));
    state.insert_message(Message { uuid: 7, bytes_size: ByteSize(10) }, 1);
    state.insert_message(Message { uuid: 8, bytes_size: ByteSize(20) }, 1);
    state.append_event(1, event(7, 5, "a:1", "in", EventType::Sent));
    state.append_event(1, received(7, 10, "a:1", "in", "g1"));
    state.append_event(1, received(7, 25, "b:1", "out", "g2"));
    assert_eq!(kafka_latencies(&state, &kafka), Ok(vec![15]));
    let both = SendReceiveLatencyRequest {
        experiment_uuid: 1,
        source: SendReceiveLatencyRequestBrokerSource {
            brokers: "a:1".to_string(),
            topic: "in".to_string(),
        },
        dest: broker("b:1", "out", "g2"),
    };
    assert_eq!(send_receive_latencies(&state, &both), Ok(vec![20]));
    assert_eq!(
        messaged_bytes_size(&state, &BytesSizeRequest { experiment_uuid: 1 }),
        Ok(vec![10, 20])
    );
}
