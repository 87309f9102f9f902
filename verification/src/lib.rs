//! Core of a messaging-platform webhook service: keyed-hash signature
//! authentication over raw request bodies, a fixed-window rate limiter with a
//! background sweep, and the event-dispatch pipeline that turns inbound events
//! into outgoing replies. Contracts on the public functions are checked by
//! Verus; network I/O and JSON decoding live outside this crate.

pub mod config;
pub mod dispatch;
pub mod events;
pub mod handlers;
pub mod messages;
pub mod metrics;
pub mod pipeline;
pub mod rate_limit;
pub mod signature;
pub mod text;
pub mod validation;
