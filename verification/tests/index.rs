use kafka_emitter::models::{ByteSize, EventType, Experiment, Message, MessageEvent, ResponseError};
use kafka_emitter::state::{MessagesState, State};

fn message(uuid: u128, bytes: u64) -> Message {
    Message { uuid, bytes_size: ByteSize(bytes) }
}

fn sent(message_uuid: u128, at: u128) -> MessageEvent {
    MessageEvent {
        message_uuid,
        timestamp_millis: at,
        brokers: "localhost:9092".to_string(),
        topic: "default".to_string(),
        event_type: EventType::Sent,
    }
}

fn entries(state: &MessagesState) -> (usize, usize, usize, usize, usize) {
    (
        state.experiments.len(),
        state.messages.len(),
        state.events.len(),
        state.idx_experiment_to_messages.0.len(),
        state.idx_message_to_experiment.0.len(),
    )
}

#[test]
fn new_index_is_empty() {
    let state = MessagesState::new();
    assert_eq!(entries(&state), (0, 0, 0, 0, 0));
    assert!(state.list_experiments().is_empty());
}

#[test]
fn begin_then_end_leaves_nothing() {
    let mut state = State::new();
    let id = state.begin(Vec::new(), Vec::new(), 1000);
    assert_eq!((id >> 76) & 0xf, 4);
    assert_eq!((id >> 62) & 0x3, 2);
    assert!(state.messages_state.has_experiment(id));
    assert_eq!(state.messages_state.list_experiments(), vec![id]);
    state.end_experiment(id);
    assert_eq!(entries(&state.messages_state), (0, 0, 0, 0, 0));
    assert!(state.messages_state.experiment_related_data(id).is_none());
}

#[test]
fn end_removes_messages_events_and_index_entries() {
    let mut state = State::new();
    state.new_experiment(1, Vec::new(), Vec::new(), 1000);
    state.new_experiment(2, Vec::new(), Vec::new(), 2000);
    state.messages_state.insert_message(message(10, 5), 1);
    state.messages_state.insert_message(message(11, 6), 1);
    state.messages_state.insert_message(message(20, 7), 2);
    assert!(state.messages_state.append_event(1, sent(10, 1)));
    assert!(state.messages_state.append_event(2, sent(20, 2)));
    assert_eq!(entries(&state.messages_state), (2, 2, 2, 2, 3));
    state.end_experiment(1);
    assert_eq!(entries(&state.messages_state), (1, 1, 1, 1, 1));
    assert!(!state.messages_state.knows_message(10));
    assert!(!state.messages_state.knows_message(11));
    assert!(state.messages_state.tracks(20, 2));
    assert_eq!(state.messages_state.idx_message_to_experiment.0.get(&20), Some(&2));
    assert_eq!(state.messages_state.events.get(&2).unwrap().len(), 1);
}

#[test]
fn end_of_unknown_experiment_changes_nothing() {
    let mut state = State::new();
    state.new_experiment(1, Vec::new(), Vec::new(), 1000);
    state.messages_state.insert_message(message(10, 5), 1);
    state.end_experiment(99);
    assert_eq!(entries(&state.messages_state), (1, 1, 1, 1, 1));
}

#[test]
fn second_insert_of_a_message_is_a_no_op() {
    let mut state = MessagesState::new();
    state.register_experiment(1, Experiment::new(1, Vec::new(), 0));
    state.insert_message(message(10, 5), 1);
    assert_eq!(entries(&state), (1, 1, 1, 1, 1));
    assert_eq!(state.idx_experiment_to_messages.0.get(&1).unwrap(), &vec![10]);
    assert_eq!(state.messages.get(&1).unwrap().0.len(), 1);
    state.insert_message(message(10, 99), 1);
    assert_eq!(entries(&state), (1, 1, 1, 1, 1));
    assert_eq!(state.idx_experiment_to_messages.0.get(&1).unwrap(), &vec![10]);
    assert_eq!(state.messages.get(&1).unwrap().0.len(), 1);
    assert_eq!(state.messages.get(&1).unwrap().0.get(&10), Some(&message(10, 5)));
}

#[test]
fn insert_creates_the_event_list() {
    let mut state = MessagesState::new();
    state.register_experiment(1, Experiment::new(1, Vec::new(), 0));
    assert!(state.events.get(&1).is_none());
    state.insert_message(message(10, 5), 1);
    assert_eq!(state.events.get(&1).unwrap().len(), 0);
}

#[test]
fn message_of_another_experiment_is_not_taken_over() {
    let mut state = MessagesState::new();
    state.register_experiment(1, Experiment::new(1, Vec::new(), 0));
    state.register_experiment(2, Experiment::new(2, Vec::new(), 0));
    state.insert_message(message(10, 5), 1);
    state.insert_message(message(10, 5), 2);
    assert!(state.tracks(10, 1));
    assert!(!state.tracks(10, 2));
    assert_eq!(state.idx_message_to_experiment.0.get(&10), Some(&1));
    assert_eq!(state.events.get(&2).unwrap().len(), 0);
}

#[test]
fn insert_under_unknown_experiment_changes_nothing() {
    let mut state = MessagesState::new();
    state.register_experiment(1, Experiment::new(1, Vec::new(), 0));
    state.insert_message(message(10, 5), 7);
    assert_eq!(entries(&state), (1, 0, 0, 0, 0));
    assert!(!state.knows_message(10));
}

#[test]
fn append_event_reports_a_missing_list() {
    let mut state = MessagesState::new();
    state.register_experiment(1, Experiment::new(1, Vec::new(), 0));
    assert!(!state.append_event(1, sent(10, 1)));
    assert_eq!(entries(&state), (1, 0, 0, 0, 0));
    state.insert_message(message(10, 5), 1);
    assert!(state.append_event(1, sent(10, 1)));
    assert!(state.append_event(1, sent(10, 0)));
    let events = state.events.get(&1).unwrap();
    assert_eq!(events.len(), 2);
    assert_eq!(events[0].timestamp_millis, 1);
    assert_eq!(events[1].timestamp_millis, 0);
    state.remove_experiment(1);
    assert!(!state.append_event(1, sent(10, 2)));
}

#[test]
fn reset_clears_everything() {
    let mut state = State::new();
    state.new_experiment(1, Vec::new(), Vec::new(), 1000);
    state.new_experiment(2, Vec::new(), Vec::new(), 1000);
    state.messages_state.insert_message(message(10, 5), 1);
    state.messages_state.insert_message(message(20, 5), 2);
    state.reset();
    assert_eq!(entries(&state.messages_state), (0, 0, 0, 0, 0));
    let mut index = state.messages_state;
    index.register_experiment(3, Experiment::new(3, Vec::new(), 0));
    index.reset();
    assert_eq!(entries(&index), (0, 0, 0, 0, 0));
}

#[test]
fn list_holds_each_experiment_once() {
    let mut state = State::new();
    state.new_experiment(3, Vec::new(), Vec::new(), 0);
    state.new_experiment(1, Vec::new(), Vec::new(), 0);
    state.restore_experiment(1, Vec::new(), Vec::new(), 5);
    let mut ids = state.messages_state.list_experiments();
    ids.sort();
    assert_eq!(ids, vec![1, 3]);
}

#[test]
fn new_experiment_starts_at_the_reading_and_has_no_end() {
    let mut state = State::new();
    state.new_experiment(5, Vec::new(), Vec::new(), 1234);
    let experiment = state.messages_state.get_experiment(5).unwrap();
    assert_eq!(experiment.uuid, 5);
    assert_eq!(experiment.experiment_start_timestamp_millis, 1234);
    assert_eq!(experiment.experiment_end_timestamp_millis, None);
    assert!(state.messages_state.get_experiment(6).is_none());
    state.restore_experiment(5, Vec::new(), Vec::new(), 99);
    let restored = state.messages_state.get_experiment(5).unwrap();
    assert_eq!(restored.experiment_start_timestamp_millis, 99);
    assert_eq!(restored.experiment_end_timestamp_millis, None);
}

#[test]
fn ordered_messages_pass_over_an_id_without_a_message() {
    let mut state = MessagesState::new();
    state.register_experiment(1, Experiment::new(1, Vec::new(), 0));
    state.insert_message(message(12, 5), 1);
    state.insert_message(message(11, 6), 1);
    assert_eq!(state.ordered_messages(1), vec![message(12, 5), message(11, 6)]);
    assert_eq!(state.ordered_messages(2), Vec::new());
    state.messages.get_mut(&1).unwrap().0.remove(&12);
    assert_eq!(state.ordered_messages(1), vec![message(11, 6)]);
    state.messages.remove(&1);
    assert_eq!(state.ordered_messages(1), Vec::new());
    assert_eq!(state.get_insights(1).unwrap().messages, Vec::new());
}

#[test]
fn related_data_copies_what_is_recorded() {
    let mut state = State::new();
    state.new_experiment(1, Vec::new(), Vec::new(), 1234);
    let (experiment, messages, events) = state.messages_state.experiment_related_data(1).unwrap();
    assert_eq!(experiment.experiment_start_timestamp_millis, 1234);
    assert!(messages.0.is_empty());
    assert!(events.is_empty());
    state.messages_state.insert_message(message(10, 5), 1);
    state.messages_state.append_event(1, sent(10, 77));
    let (_, messages, events) = state.messages_state.experiment_related_data(1).unwrap();
    assert_eq!(messages.0.get(&10), Some(&message(10, 5)));
    assert_eq!(events, vec![sent(10, 77)]);
}

#[test]
fn insights_and_overview() {
    let mut state = MessagesState::new();
    state.register_experiment(1, Experiment::new(1, Vec::new(), 9));
    state.insert_message(message(12, 5), 1);
    state.insert_message(message(11, 6), 1);
    state.append_event(1, sent(12, 77));
    let insights = state.get_insights(1).unwrap();
    assert_eq!(insights.messages, vec![message(12, 5), message(11, 6)]);
    assert_eq!(insights.events, vec![sent(12, 77)]);
    assert_eq!(insights.experiment.uuid, 1);
    let overview = state.get_config(1).unwrap();
    assert_eq!(overview.messages, 2);
    assert_eq!(overview.events, 1);
    assert_eq!(state.get_insights(2).unwrap_err(), ResponseError::ExperimentNotFound);
    assert_eq!(state.get_config(2).unwrap_err(), ResponseError::ExperimentNotFound);
}
