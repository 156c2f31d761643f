//! Verified core of a dual-machine crosstalk canceller: the shared data
//! model, the UDP packet format, the transport state machines, configuration
//! rules and the operator-facing text helpers.

pub mod catalog;
pub mod config;
pub mod history;
pub mod import;
pub mod jitter;
pub mod model;
pub mod order;
pub mod output;
pub mod packet;
pub mod schedule;
pub mod text;
pub mod transport;
pub mod ui;
pub mod worker;
pub mod workspace;
