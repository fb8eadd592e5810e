//! Requests and results of the statistics queries.

use vstd::prelude::*;

verus! {

/// The producing side of a send-to-receive latency query.
#[derive(Debug, Clone)]
pub struct SendReceiveLatencyRequestBrokerSource {
    pub brokers: String,
    pub topic: String,
}

/// A consuming side of a latency query.
#[derive(Debug, Clone)]
pub struct KafkaLatencyRequestBroker {
    pub brokers: String,
    pub topic: String,
    pub consumer_group: String,
}

#[derive(Debug, Clone)]
pub struct KafkaLatencyRequest {
    pub experiment_uuid: u128,
    pub source: KafkaLatencyRequestBroker,
    pub dest: KafkaLatencyRequestBroker,
}

#[derive(Debug, Clone)]
pub struct SendReceiveLatencyRequest {
    pub experiment_uuid: u128,
    pub source: SendReceiveLatencyRequestBrokerSource,
    pub dest: KafkaLatencyRequestBroker,
}

#[derive(Debug, Clone, Copy, PartialEq, Eq)]
pub struct BytesSizeRequest {
    pub experiment_uuid: u128,
}

#[derive(Debug, Clone, Copy, PartialEq, Eq)]
pub struct MinMaxAvg {
    pub min: u128,
    pub max: u128,
    pub avg: u128,
}

#[derive(Debug, Clone, Copy, PartialEq, Eq)]
pub struct TotalAvg {
    pub total: u128,
    pub avg: u128,
}

#[derive(Debug, Clone, Copy, PartialEq, Eq)]
pub struct StatsLatencies {
    /// Difference between the times of the source and the destination.
    pub kafka_latencies_ms: MinMaxAvg,
    /// Difference between the times of producing and consuming.
    pub latencies_ms: MinMaxAvg,
}

#[derive(Debug, Clone, Copy, PartialEq, Eq)]
pub struct BytesSizeStats {
    pub messages: TotalAvg,
    pub received_messages: TotalAvg,
    pub sent_messages: TotalAvg,
}

#[derive(Debug, Clone, Copy, PartialEq, Eq)]
pub struct Stats {
    pub recorded_events_number: usize,
    pub experiment_start_timestamp_ms: u128,
    pub bytes_size: BytesSizeStats,
    pub latencies: StatsLatencies,
}

} // verus!
