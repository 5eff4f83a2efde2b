//! Verified core of a live network-flow telemetry and rate-alerting library.
//!
//! Packets are reduced to plain observations (timestamps in microseconds,
//! sizes in bytes); flows are tracked per undirected 5-tuple; per-flow
//! feature statistics are computed exactly over integers and rationals,
//! and a sliding-window detector raises per-source rate alerts.

pub mod cadence;
pub mod clock;
pub mod ddos;
pub mod error;
pub mod features;
pub mod flow;
pub mod mempool;
pub mod parse;
pub mod pipeline;
pub mod portfilter;
pub mod ratio;
pub mod stats;
pub mod text;

