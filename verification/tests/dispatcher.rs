use kafka_emitter::messages::{
    batch_sizes, correlation_headers, create_producer, handle_message_delivery_failure,
    message_key, new_message_uuid, random_string, send, send_job, sender, CorrelationHeader,
    Delivery, JobStep, SendStatus,
};
use kafka_emitter::models::{
    ByteSize, Duration, EventType, Experiment, Message, MessageEvent, MessageRate, ResponseError,
    SendMessage, SendMessageTask, SentMessage,
};
use kafka_emitter::state::MessagesState;

fn request(messages_number: usize, experiment_uuid: u128) -> SendMessage {
    SendMessage {
        buffering_ms: 5,
        brokers: "localhost:9092".to_string(),
        topic: "default".to_string(),
        ssl: false,
        message_timeout: Duration { secs: 2, nanos: 500_000_000 },
        body_size: ByteSize(16),
        messages_number,
        experiment_uuid,
        blocking: false,
        async_mode: false,
    }
}

fn index_with(experiment_uuid: u128) -> MessagesState {
    let mut state = MessagesState::new();
    state.register_experiment(experiment_uuid, Experiment::new(experiment_uuid, Vec::new(), 0));
    state
}

fn pair(key: &str, value: &str) -> CorrelationHeader {
    CorrelationHeader { key: key.to_string(), value: value.to_string() }
}

#[test]
fn payload_has_the_size_asked_for() {
    for size in [0u128, 1, 62, 1000] {
        let payload = random_string(size);
        assert_eq!(payload.len() as u128, size);
        assert_eq!(payload.chars().count() as u128, size);
        assert!(payload.chars().all(|c| c.is_ascii_alphanumeric()));
    }
}

#[test]
fn payloads_differ() {
    assert_ne!(random_string(64), random_string(64));
}

#[test]
fn producer_settings_without_tls() {
    let config = create_producer(&request(1, 1));
    assert_eq!(config.get("bootstrap.servers"), Some("localhost:9092"));
    assert_eq!(config.get("queue.buffering.max.ms"), Some("5"));
    assert_eq!(config.get("message.timeout.ms"), Some("2500"));
    assert_eq!(config.get("security.protocol"), None);
    assert_eq!(config.get("enable.ssl.certificate.verification"), None);
    assert_eq!(config.config_map().len(), 3);
}

#[test]
fn producer_settings_with_tls() {
    let mut params = request(1, 1);
    params.ssl = true;
    params.buffering_ms = 0;
    params.message_timeout = Duration { secs: 60, nanos: 999_999 };
    let config = create_producer(&params);
    assert_eq!(config.get("bootstrap.servers"), Some("localhost:9092"));
    assert_eq!(config.get("queue.buffering.max.ms"), Some("0"));
    assert_eq!(config.get("message.timeout.ms"), Some("60000"));
    assert_eq!(config.get("security.protocol"), Some("ssl"));
    assert_eq!(config.get("enable.ssl.certificate.verification"), Some("false"));
    assert_eq!(config.config_map().len(), 5);
}

#[test]
fn message_key_holds_the_number() {
    assert_eq!(message_key(0), "msg-0");
    assert_eq!(message_key(41), "msg-41");
}

#[test]
fn headers_carry_both_ids_as_text() {
    let headers = correlation_headers(
        0xa1a2a3a4b1b2c1c2d1d2d3d4d5d6d7d8,
        0x550e8400e29b41d4a716446655440000,
    );
    assert_eq!(
        headers,
        vec![
            pair("x-message-uuid", "a1a2a3a4-b1b2-c1c2-d1d2-d3d4d5d6d7d8"),
            pair("x-experiment-uuid", "550e8400-e29b-41d4-a716-446655440000"),
        ]
    );
}

#[test]
fn message_ids_are_random_version_four() {
    let a = new_message_uuid();
    let b = new_message_uuid();
    assert_ne!(a, b);
    assert_eq!((a >> 76) & 0xf, 4);
    assert_eq!((a >> 62) & 0x3, 2);
}

#[test]
fn sender_records_message_and_sent_event() {
    let mut state = index_with(1);
    let params = request(1, 1);
    assert_eq!(sender(&mut state, &params, 10, 16, 1234, true), Delivery::Delivered);
    assert_eq!(sender(&mut state, &params, 11, 16, 1235, false), Delivery::Failed);
    assert_eq!(state.messages.get(&1).unwrap().0.get(&10), Some(&Message { uuid: 10, bytes_size: ByteSize(16) }));
    assert!(state.tracks(11, 1));
    assert_eq!(
        state.events.get(&1).unwrap(),
        &vec![
            MessageEvent {
                message_uuid: 10,
                timestamp_millis: 1234,
                brokers: "localhost:9092".to_string(),
                topic: "default".to_string(),
                event_type: EventType::Sent,
            },
            MessageEvent {
                message_uuid: 11,
                timestamp_millis: 1235,
                brokers: "localhost:9092".to_string(),
                topic: "default".to_string(),
                event_type: EventType::Sent,
            },
        ]
    );
}

#[test]
fn sender_drops_what_belongs_to_no_experiment() {
    let mut state = index_with(1);
    let params = request(1, 2);
    assert_eq!(sender(&mut state, &params, 10, 16, 1234, true), Delivery::Dropped);
    assert!(!state.knows_message(10));
    assert!(state.events.is_empty());
    state.remove_experiment(1);
    assert_eq!(sender(&mut state, &request(1, 1), 10, 16, 1234, true), Delivery::Dropped);
    assert!(state.experiments.is_empty() && state.events.is_empty() && state.messages.is_empty());
}

#[test]
fn failure_is_counted_and_its_bytes_leave_the_total() {
    let mut message = SentMessage {
        experiment_uuid: 1,
        message_number: 5,
        bytes_size: 16,
        total_sent_bytes: 80,
        total_sent_bytes_human_readable: ByteSize(80),
        delivery_failures: 0,
    };
    handle_message_delivery_failure(&mut message, 16);
    assert_eq!(message.delivery_failures, 1);
    assert_eq!(message.total_sent_bytes, 64);
    assert_eq!(message.message_number, 5);
    assert_eq!(message.bytes_size, 16);
}

#[test]
fn send_with_every_delivery_acknowledged() {
    let state = index_with(1);
    let outcomes = vec![Delivery::Delivered; 5];
    let (message, status) = send(&state, &request(5, 1), 16, &outcomes).unwrap();
    assert_eq!(status, SendStatus::Complete);
    assert_eq!(status.status_code(), 200);
    assert_eq!(message.delivery_failures, 0);
    assert_eq!(message.total_sent_bytes, 5 * 16);
    assert_eq!(message.total_sent_bytes_human_readable, ByteSize(80));
    assert_eq!(message.message_number, 5);
    assert_eq!(message.bytes_size, 16);
    assert_eq!(message.experiment_uuid, 1);
}

#[test]
fn send_with_two_failures_is_partial() {
    let state = index_with(1);
    let outcomes = vec![
        Delivery::Delivered,
        Delivery::Failed,
        Delivery::Delivered,
        Delivery::Dropped,
        Delivery::Delivered,
    ];
    let (message, status) = send(&state, &request(5, 1), 16, &outcomes).unwrap();
    assert_eq!(status, SendStatus::Partial);
    assert_eq!(status.status_code(), 207);
    assert_eq!(message.delivery_failures, 2);
    assert_eq!(message.total_sent_bytes, 3 * 16);
    assert_eq!(message.total_sent_bytes_human_readable, ByteSize(48));
}

#[test]
fn send_with_every_delivery_failed_is_an_error() {
    let state = index_with(1);
    let outcomes = vec![Delivery::Failed; 5];
    let answer = send(&state, &request(5, 1), 16, &outcomes);
    assert_eq!(answer, Err(ResponseError::NoMessagesDelivered));
    assert_eq!(ResponseError::NoMessagesDelivered.status_code(), 500);
}

#[test]
fn send_of_no_message_succeeds() {
    let state = index_with(1);
    let (message, status) = send(&state, &request(0, 1), 16, &Vec::new()).unwrap();
    assert_eq!(status, SendStatus::Complete);
    assert_eq!(message.total_sent_bytes, 0);
    assert_eq!(message.delivery_failures, 0);
}

#[test]
fn send_to_unknown_experiment_is_not_found() {
    let state = index_with(1);
    let answer = send(&state, &request(5, 2), 16, &vec![Delivery::Delivered; 5]);
    assert_eq!(answer, Err(ResponseError::ExperimentNotFound));
    assert_eq!(ResponseError::ExperimentNotFound.status_code(), 404);
}

#[test]
fn detached_send_answers_from_the_requested_totals() {
    let state = index_with(1);
    let mut params = request(5, 1);
    params.async_mode = true;
    let (message, status) = send(&state, &params, 16, &Vec::new()).unwrap();
    assert_eq!(status, SendStatus::Complete);
    assert_eq!(message.delivery_failures, 0);
    assert_eq!(message.total_sent_bytes, 80);
    let (message, _) = send(&state, &params, 16, &vec![Delivery::Failed; 5]).unwrap();
    assert_eq!(message.delivery_failures, 0);
    assert_eq!(message.total_sent_bytes, 80);
}

#[test]
fn job_of_ten_at_three_has_four_batches() {
    assert_eq!(batch_sizes(10, 3), vec![3, 3, 3, 1]);
}

#[test]
fn batches_at_the_edges() {
    assert_eq!(batch_sizes(0, 3), Vec::<usize>::new());
    assert_eq!(batch_sizes(9, 3), vec![3, 3, 3]);
    assert_eq!(batch_sizes(2, 3), vec![2]);
    assert_eq!(batch_sizes(3, 1), vec![1, 1, 1]);
    assert_eq!(batch_sizes(7, 100), vec![7]);
    assert_eq!(batch_sizes(1000, 7).iter().sum::<usize>(), 1000);
    assert_eq!(batch_sizes(1000, 7).len(), 143);
}

fn job(messages_number: usize, experiment_uuid: u128) -> SendMessageTask {
    SendMessageTask {
        buffering_ms: 7,
        brokers: "kafka:9092".to_string(),
        topic: "load".to_string(),
        ssl: true,
        message_timeout: Duration { secs: 1, nanos: 0 },
        body_size: ByteSize(32),
        messages_number,
        experiment_uuid,
        message_rate: MessageRate { messages: 3, per: Duration { secs: 0, nanos: 100_000_000 } },
    }
}

#[test]
fn job_plan_is_detached_and_batched() {
    let state = index_with(1);
    let plan = send_job(&state, &job(10, 1)).unwrap();
    assert_eq!(plan.batches, vec![3, 3, 3, 1]);
    assert_eq!(plan.pause, Duration { secs: 0, nanos: 100_000_000 });
    assert_eq!(plan.pause.as_millis(), 100);
    assert!(plan.base.async_mode);
    assert!(!plan.base.blocking);
    assert!(plan.base.ssl);
    assert_eq!(plan.base.buffering_ms, 7);
    assert_eq!(plan.base.brokers, "kafka:9092");
    assert_eq!(plan.base.topic, "load");
    assert_eq!(plan.base.messages_number, 10);
    assert_eq!(plan.base.body_size, ByteSize(32));
    assert_eq!(plan.base.experiment_uuid, 1);
    assert_eq!(plan.base.message_timeout, Duration { secs: 1, nanos: 0 });
}

#[test]
fn job_rests_between_batches_only() {
    let state = index_with(1);
    let pause = Duration { secs: 0, nanos: 100_000_000 };
    let plan = send_job(&state, &job(10, 1)).unwrap();
    assert_eq!(
        plan.steps,
        vec![
            JobStep::Publish(3),
            JobStep::Rest(pause),
            JobStep::Publish(3),
            JobStep::Rest(pause),
            JobStep::Publish(3),
            JobStep::Rest(pause),
            JobStep::Publish(1),
        ]
    );
    assert_eq!(plan.steps.iter().filter(|step| matches!(step, JobStep::Rest(_))).count(), 3);
    assert_eq!(send_job(&state, &job(2, 1)).unwrap().steps, vec![JobStep::Publish(2)]);
    assert_eq!(send_job(&state, &job(0, 1)).unwrap().steps, Vec::new());
}

#[test]
fn job_for_unknown_experiment_is_refused_whatever_its_rate() {
    let state = index_with(1);
    let mut params = job(10, 2);
    params.message_rate.messages = 0;
    assert_eq!(send_job(&state, &params).unwrap_err(), ResponseError::ExperimentNotFound);
}

#[test]
fn send_to_unknown_experiment_is_refused_whatever_the_outcomes() {
    let state = index_with(1);
    let mut params = request(5, 2);
    assert_eq!(send(&state, &params, 16, &Vec::new()), Err(ResponseError::ExperimentNotFound));
    params.async_mode = true;
    params.blocking = true;
    params.messages_number = usize::MAX;
    assert_eq!(
        send(&state, &params, usize::MAX, &vec![Delivery::Failed]),
        Err(ResponseError::ExperimentNotFound)
    );
}

#[test]
fn job_for_unknown_experiment_is_not_found() {
    let state = index_with(1);
    assert_eq!(send_job(&state, &job(10, 2)).unwrap_err(), ResponseError::ExperimentNotFound);
}
