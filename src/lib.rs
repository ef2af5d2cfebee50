//! A distributed service broker speaking the Moleculer v4 protocol.
//!
//! The verified core: round-robin queue-sets, the node registry, subject
//! naming, routing of emit / broadcast / call, request correlation and the
//! envelopes that travel on the transport.
pub mod broker;
pub mod channels;
pub mod config;
pub mod data_structures;
pub mod nats;
pub mod service;
pub mod util;
