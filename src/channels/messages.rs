//! Envelopes, as received from peers and as sent to them.
use vstd::prelude::*;

pub mod incoming;
pub mod outgoing;

verus! {

/// The error part of a RESPONSE envelope.
pub struct MoleculerError {
    pub message: String,
    pub code: i8,
    pub type_: String,
    pub data: serde_json::Value,
}

} // verus!
