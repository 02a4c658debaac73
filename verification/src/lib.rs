//! Minimal embedded MQTT 5 client core for a power-supply telemetry relay.
//!
//! The crate holds the pure logic of the relay: the wire codec for the
//! CONNECT / CONNACK / PUBLISH exchange, the pre-shared-key credential
//! store and selection rules, the exponential backoff state, the
//! sampling window with its per-sample retry policy, and the resilience
//! state machine that keeps the pipeline alive across outages.
//! Network, TLS and device I/O live outside the crate and hand plain
//! values in and out.

pub mod backoff;
pub mod manager;
pub mod mqtt;
pub mod pipeline;
pub mod psk;
