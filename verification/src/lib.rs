//! Uptime and TLS-certificate monitoring: the state machines, alert
//! decisions, history aggregation and input rules of the monitor.

pub mod text;
pub mod time;
pub mod weburl;
pub mod error;
pub mod store;
pub mod checker;
pub mod state;
pub mod history;
pub mod alerter;
pub mod certificate;
pub mod engine;
pub mod sync;
pub mod slack;
pub mod secrets;
