//! Correlation engine of a Kafka load-testing harness: the experiment and
//! event index, the supervisor of consume loops, the accounting of the
//! producer dispatcher and the latency statistics.

pub mod clock;
pub mod config;
pub mod decimal;
pub mod models;
pub mod ids;
pub mod consumers;
pub mod state;
pub mod latency;
pub mod messages;
