//! Envelopes as built for peers. Every one carries protocol version `4` and
//! this node's id as `sender`. A `meta` member is held as the members of a
//! JSON object, or `None` for JSON null.
use vstd::prelude::*;
use crate::channels::messages::incoming;
use crate::config::Config;
use crate::util::{copy_strings, is_uuid_v4, new_uuid_v4};

verus! {

/// The protocol version every envelope carries.
pub open spec fn protocol_version() -> Seq<char> {
    seq!['4']
}

fn version() -> (r: String)
    ensures
        r@ == protocol_version(),
{
    proof {
        reveal_strlit("4");
    }
    "4".to_owned()
}

/// The software this node runs.
pub struct Client {
    pub type_: String,
    pub version: String,
    pub lang_version: String,
}

impl Client {
    pub fn new(version: &str, lang_version: &str) -> (r: Self)
        ensures
            r.type_@ == seq!['r', 'u', 's', 't'],
            r.version@ == version@,
            r.lang_version@ == lang_version@,
    {
        proof {
            reveal_strlit("rust");
        }
        Client { type_: "rust".to_owned(), version: version.to_owned(), lang_version: lang_version.to_owned() }
    }
}

/// The answer to a PING.
pub struct PongMessage {
    pub ver: String,
    pub sender: String,
    pub id: String,
    pub time: i64,
    /// Milliseconds since the epoch when the PING arrived here.
    pub arrived: i64,
}

impl PongMessage {
    /// Answers `ping` from node `node_id`; the PING arrived at `arrived`.
    pub fn from_ping(ping: incoming::PingMessage, node_id: &str, arrived: i64) -> (r: Self)
        ensures
            r.ver == ping.ver,
            r.sender@ == node_id@,
            r.id == ping.id,
            r.time == ping.time,
            r.arrived == arrived,
    {
        PongMessage { ver: ping.ver, sender: node_id.to_owned(), id: ping.id, time: ping.time, arrived }
    }
}

pub struct HeartbeatMessage {
    pub ver: String,
    pub sender: String,
    /// CPU usage in hundredths of a percent.
    pub cpu: u32,
}

impl HeartbeatMessage {
    pub fn new(sender: &str, cpu: u32) -> (r: Self)
        ensures
            r.ver@ == protocol_version(),
            r.sender@ == sender@,
            r.cpu == cpu,
    {
        HeartbeatMessage { ver: version(), sender: sender.to_owned(), cpu }
    }
}

pub struct DisconnectMessage {
    pub ver: String,
    pub sender: String,
}

impl DisconnectMessage {
    pub fn new(sender: &str) -> (r: Self)
        ensures
            r.ver@ == protocol_version(),
            r.sender@ == sender@,
    {
        DisconnectMessage { ver: version(), sender: sender.to_owned() }
    }
}

pub struct DiscoverMessage {
    pub ver: String,
    pub sender: String,
}

impl DiscoverMessage {
    pub fn new(sender: &str) -> (r: Self)
        ensures
            r.ver@ == protocol_version(),
            r.sender@ == sender@,
    {
        DiscoverMessage { ver: version(), sender: sender.to_owned() }
    }
}

/// This node's announcement; the encoder attaches the node's services.
pub struct InfoMessage {
    pub ver: String,
    pub sender: String,
    pub instance_id: String,
    pub ip_list: Vec<String>,
    pub hostname: String,
    pub client: Client,
}

impl InfoMessage {
    pub fn new(config: &Config, client: Client) -> (r: Self)
        ensures
            r.ver@ == protocol_version(),
            r.sender@ == config.node_id@,
            r.instance_id@ == config.instance_id@,
            r.ip_list@ == config.ip_list@,
            r.hostname@ == config.hostname@,
            r.client == client,
    {
        InfoMessage {
            ver: version(),
            sender: config.node_id.clone(),
            instance_id: config.instance_id.clone(),
            ip_list: copy_strings(&config.ip_list),
            hostname: config.hostname.clone(),
            client,
        }
    }
}

pub struct EventMessage {
    pub id: String,
    pub sender: String,
    pub ver: String,
    pub event: String,
    pub data: serde_json::Value,
    /// The members of the `meta` object.
    pub meta: Vec<(String, serde_json::Value)>,
    pub level: i32,
    pub tracing: Option<bool>,
    pub parent_id: Option<String>,
    pub request_id: Option<String>,
    pub caller: Option<String>,
    pub stream: Option<bool>,
    pub seq: Option<i32>,
    pub groups: Option<Vec<String>>,
    pub broadcast: Option<bool>,
}

impl EventMessage {
    /// The envelope of `event` carrying `params`, with a fresh id.
    pub open spec fn is_fresh_event(&self, config: &Config, event: Seq<char>, params: serde_json::Value) -> bool {
        &&& is_uuid_v4(self.id@)
        &&& self.sender@ == config.node_id@
        &&& self.ver@ == protocol_version()
        &&& self.event@ == event
        &&& self.data == params
        &&& self.meta@.len() == 0
        &&& self.level == 1
        &&& self.tracing is None
        &&& self.parent_id is None
        &&& self.request_id is None
        &&& self.caller is None
        &&& self.stream is None
        &&& self.seq is None
        &&& self.groups is None
    }

    pub fn new_for_emit(config: &Config, event: &str, params: serde_json::Value) -> (r: Self)
        ensures
            r.is_fresh_event(config, event@, params),
            r.broadcast == Some(false),
    {
        EventMessage {
            id: new_uuid_v4(),
            sender: config.node_id.clone(),
            ver: version(),
            event: event.to_owned(),
            data: params,
            meta: Vec::new(),
            level: 1,
            tracing: None,
            parent_id: None,
            request_id: None,
            caller: None,
            stream: None,
            seq: None,
            groups: None,
            broadcast: Some(false),
        }
    }

    pub fn new_for_broadcast(config: &Config, event: &str, params: serde_json::Value) -> (r: Self)
        ensures
            r.is_fresh_event(config, event@, params),
            r.broadcast == Some(true),
    {
        EventMessage { broadcast: Some(true), ..EventMessage::new_for_emit(config, event, params) }
    }
}

pub struct ResponseMessage {
    pub id: String,
    pub sender: String,
    pub ver: String,
    pub data: serde_json::Value,
    /// The members of the `meta` object; `None` is JSON null.
    pub meta: Option<Vec<(String, serde_json::Value)>>,
    pub error: Option<crate::channels::messages::MoleculerError>,
    pub success: bool,
}

impl ResponseMessage {
    /// A successful response to request `request_id` carrying `params`.
    pub fn new(config: &Config, request_id: &str, params: serde_json::Value) -> (r: Self)
        ensures
            r.id@ == request_id@,
            r.sender@ == config.node_id@,
            r.ver@ == protocol_version(),
            r.data == params,
            r.meta is None,
            r.error is None,
            r.success,
    {
        ResponseMessage {
            id: request_id.to_owned(),
            sender: config.node_id.clone(),
            ver: version(),
            data: params,
            meta: None,
            error: None,
            success: true,
        }
    }
}

pub struct RequestMessage {
    pub id: String,
    pub sender: String,
    pub ver: String,
    pub action: String,
    pub params: serde_json::Value,
    /// The members of the `meta` object; `None` is JSON null.
    pub meta: Option<Vec<(String, serde_json::Value)>>,
    /// Milliseconds.
    pub timeout: i32,
    pub level: i32,
    pub tracing: Option<bool>,
    pub parent_id: Option<String>,
    pub request_id: String,
    pub caller: Option<String>,
    pub stream: Option<bool>,
    pub seq: Option<i32>,
}

impl RequestMessage {
    /// A request for `action_name` with `params` under a fresh id, which is
    /// also its request id.
    pub fn new(config: &Config, action_name: &str, params: serde_json::Value) -> (r: Self)
        ensures
            is_uuid_v4(r.id@),
            r.request_id@ == r.id@,
            r.sender@ == config.node_id@,
            r.ver@ == protocol_version(),
            r.action@ == action_name@,
            r.params == params,
            r.meta is None,
            r.timeout == config.request_timeout,
            r.level == 1,
            r.tracing is None,
            r.parent_id is None,
            r.caller is None,
            r.stream is None,
            r.seq is None,
    {
        let id = new_uuid_v4();
        let request_id = id.clone();
        RequestMessage {
            id,
            sender: config.node_id.clone(),
            ver: version(),
            action: action_name.to_owned(),
            params,
            meta: None,
            timeout: config.request_timeout,
            level: 1,
            tracing: None,
            parent_id: None,
            request_id,
            caller: None,
            stream: None,
            seq: None,
        }
    }
}

} // verus!
