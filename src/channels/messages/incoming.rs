//! Envelopes as decoded from peers.
use vstd::prelude::*;
use crate::channels::messages::MoleculerError;
use crate::service::Service;

verus! {

/// The software a peer runs.
pub struct Client {
    pub type_: String,
    pub version: String,
    pub lang_version: String,
}

impl Client {
    pub fn duplicate(&self) -> (r: Self)
        ensures
            r == *self,
    {
        Client { type_: self.type_.clone(), version: self.version.clone(), lang_version: self.lang_version.clone() }
    }
}

pub struct PingMessage {
    pub ver: String,
    pub sender: String,
    pub id: String,
    /// Milliseconds since the epoch at the sender.
    pub time: i64,
}

pub struct HeartbeatMessage {
    pub ver: String,
    pub sender: String,
    /// CPU usage in hundredths of a percent.
    pub cpu: u32,
}

pub struct DisconnectMessage {
    pub ver: String,
    pub sender: String,
}

/// A peer's announcement of itself and of its services.
pub struct InfoMessage {
    pub ver: String,
    pub sender: String,
    pub services: Vec<Service>,
    pub ip_list: Vec<String>,
    pub hostname: String,
    pub client: Client,
    pub instance_id: String,
    pub config: Vec<(String, String)>,
    pub metadata: Vec<(String, String)>,
}

pub struct DiscoverMessage {
    pub ver: String,
    pub sender: String,
}

pub struct EventMessage {
    pub id: String,
    pub sender: String,
    pub ver: String,
    pub event: String,
    pub data: serde_json::Value,
    pub meta: serde_json::Value,
    pub level: i32,
    pub tracing: Option<bool>,
    pub parent_id: Option<String>,
    pub request_id: Option<String>,
    pub caller: Option<String>,
    pub stream: Option<bool>,
    pub seq: Option<i32>,
    pub groups: Option<Vec<String>>,
    pub broadcast: Option<bool>,
}

pub struct RequestMessage {
    pub id: String,
    pub sender: String,
    pub ver: String,
    pub action: String,
    pub params: serde_json::Value,
    pub meta: serde_json::Value,
    /// Milliseconds.
    pub timeout: i64,
    pub level: i32,
    pub tracing: Option<bool>,
    pub parent_id: Option<String>,
    pub request_id: String,
    pub caller: Option<String>,
    pub stream: Option<bool>,
    pub seq: Option<i32>,
}

pub struct ResponseMessage {
    pub id: String,
    pub sender: String,
    pub ver: String,
    pub data: serde_json::Value,
    pub meta: serde_json::Value,
    pub error: Option<MoleculerError>,
    pub success: bool,
}

} // verus!
