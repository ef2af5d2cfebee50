//! Broker configuration and the subjects of the protocol's channels.
use vstd::prelude::*;
use vstd::string::*;
use crate::util::{gen_node_id, is_alphanumeric, is_uuid_v4, lower_of, new_uuid_v4, node_id_text};

verus! {

/// Where log records go.
#[derive(Debug, Clone, Copy, PartialEq, Eq)]
pub enum Logger {
    Console,
}

/// The publish/subscribe transport and its address.
#[derive(Debug)]
pub enum Transporter {
    Nats(String),
}

impl Transporter {
    /// A NATS transporter at `nats_address`, e.g. `nats://localhost:4222`.
    pub fn nats(nats_address: &str) -> (r: Self)
        ensures
            r == Transporter::Nats(r->Nats_0) && r->Nats_0@ == nats_address@,
    {
        Transporter::Nats(nats_address.to_owned())
    }
}

/// Envelope codec; JSON is the one supported.
#[derive(Debug, Clone, Copy, PartialEq, Eq)]
pub enum Serializer {
    JSON,
}

/// Registry kind; only the local registry exists.
#[derive(Debug, Clone, Copy, PartialEq, Eq)]
pub enum Registry {
    Local,
}

/// Retry settings (accepted, not acted upon).
#[derive(Debug, Clone, Copy, PartialEq, Eq)]
pub struct RetryPolicy {
    pub enabled: bool,
    pub retries: u32,
    pub delay: u32,
    pub max_delay: u32,
    pub factor: u32,
}

impl Default for RetryPolicy {
    fn default() -> (r: Self)
        ensures
            r == (RetryPolicy { enabled: false, retries: 5, delay: 100, max_delay: 2000, factor: 2 }),
    {
        RetryPolicy { enabled: false, retries: 5, delay: 100, max_delay: 2000, factor: 2 }
    }
}

/// Request tracking settings (accepted, not acted upon).
#[derive(Debug, Clone, Copy, PartialEq, Eq)]
pub struct Tracking {
    pub enabled: bool,
    pub shutdown_timeout: u32,
}

impl Default for Tracking {
    fn default() -> (r: Self)
        ensures
            r == (Tracking { enabled: false, shutdown_timeout: 10000 }),
    {
        Tracking { enabled: false, shutdown_timeout: 10000 }
    }
}

/// Circuit breaker settings (accepted, not acted upon). The failure
/// threshold is a percentage.
#[derive(Debug, Clone, Copy, PartialEq, Eq)]
pub struct CircuitBreaker {
    pub enabled: bool,
    pub threshold_percent: u32,
    pub min_request_count: u32,
    pub window_time: u32,
    pub half_open_time: u32,
}

impl Default for CircuitBreaker {
    fn default() -> (r: Self)
        ensures
            r == (CircuitBreaker {
                enabled: false,
                threshold_percent: 50,
                min_request_count: 20,
                window_time: 60,
                half_open_time: 10000,
            }),
    {
        CircuitBreaker {
            enabled: false,
            threshold_percent: 50,
            min_request_count: 20,
            window_time: 60,
            half_open_time: 10000,
        }
    }
}

/// Bulkhead settings (accepted, not acted upon).
#[derive(Debug, Clone, Copy, PartialEq, Eq)]
pub struct Bulkhead {
    pub enabled: bool,
    pub concurrency: u32,
    pub max_queue_size: u32,
}

impl Default for Bulkhead {
    fn default() -> (r: Self)
        ensures
            r == (Bulkhead { enabled: false, concurrency: 3, max_queue_size: 10 }),
    {
        Bulkhead { enabled: false, concurrency: 3, max_queue_size: 10 }
    }
}

/// Transit settings (accepted, not acted upon).
#[derive(Debug)]
pub struct Transit {
    pub max_queue_size: u32,
    pub max_chunk_size: u32,
    pub disable_reconnect: bool,
    pub disable_version_check: bool,
    pub packet_log_filter: Vec<String>,
}

impl Default for Transit {
    fn default() -> (r: Self)
        ensures
            r.max_queue_size == 50_000,
            r.max_chunk_size == 256,
            !r.disable_reconnect,
            !r.disable_version_check,
            r.packet_log_filter@.len() == 0,
    {
        Transit {
            max_queue_size: 50_000,
            max_chunk_size: 256,
            disable_reconnect: false,
            disable_version_check: false,
            packet_log_filter: Vec::new(),
        }
    }
}

/// The logical channels of the protocol.
#[derive(Debug, Clone, Copy, PartialEq, Eq, Hash)]
pub enum Channel {
    Event,
    Request,
    Response,
    Discover,
    DiscoverTargeted,
    Info,
    InfoTargeted,
    Heartbeat,
    Ping,
    PongPrefix,
    Pong,
    PingTargeted,
    Disconnect,
}

/// The subject prefix: `MOL`, or `MOL-<namespace>` for a non-empty namespace.
pub open spec fn mol_of(namespace: Seq<char>) -> Seq<char> {
    if namespace.len() == 0 {
        seq!['M', 'O', 'L']
    } else {
        seq!['M', 'O', 'L', '-'] + namespace
    }
}

/// The word that names a channel kind inside a subject.
pub open spec fn kind_word(c: Channel) -> Seq<char> {
    match c {
        Channel::Event => seq!['E', 'V', 'E', 'N', 'T'],
        Channel::Request => seq!['R', 'E', 'Q'],
        Channel::Response => seq!['R', 'E', 'S'],
        Channel::Discover | Channel::DiscoverTargeted => seq!['D', 'I', 'S', 'C', 'O', 'V', 'E', 'R'],
        Channel::Info | Channel::InfoTargeted => seq!['I', 'N', 'F', 'O'],
        Channel::Heartbeat => seq!['H', 'E', 'A', 'R', 'T', 'B', 'E', 'A', 'T'],
        Channel::Ping | Channel::PingTargeted => seq!['P', 'I', 'N', 'G'],
        Channel::Pong | Channel::PongPrefix => seq!['P', 'O', 'N', 'G'],
        Channel::Disconnect => seq!['D', 'I', 'S', 'C', 'O', 'N', 'N', 'E', 'C', 'T'],
    }
}

/// Whether the channel's subject ends with a node id.
pub open spec fn is_addressed(c: Channel) -> bool {
    match c {
        Channel::Event | Channel::Request | Channel::Response | Channel::DiscoverTargeted
        | Channel::InfoTargeted | Channel::PingTargeted | Channel::Pong => true,
        _ => false,
    }
}

/// `<mol>.<KIND>`, followed by `.<node>` for a channel addressed to a node.
pub open spec fn subject_of(c: Channel, mol: Seq<char>, node: Seq<char>) -> Seq<char> {
    if is_addressed(c) {
        mol + seq!['.'] + kind_word(c) + seq!['.'] + node
    } else {
        mol + seq!['.'] + kind_word(c)
    }
}

/// The subject on which peer `node` listens for envelopes of channel `c`.
pub open spec fn peer_subject(c: Channel, namespace: Seq<char>, node: Seq<char>) -> Seq<char> {
    mol_of(namespace) + seq!['.'] + kind_word(c) + seq!['.'] + node
}

/// The subject prefix for a namespace.
pub fn mol(namespace: &str) -> (r: String)
    ensures
        r@ == mol_of(namespace@),
{
    proof {
        reveal_strlit("MOL");
        reveal_strlit("MOL-");
    }
    if namespace.is_empty() {
        "MOL".to_owned()
    } else {
        let mut s = "MOL-".to_owned();
        s.append(namespace);
        s
    }
}

impl Channel {
    /// Every channel, each once.
    pub fn all() -> (r: Vec<Channel>)
        ensures
            r@.no_duplicates(),
            forall|c: Channel| r@.contains(c),
    {
        let r = vec![
            Channel::Event,
            Channel::Request,
            Channel::Response,
            Channel::Discover,
            Channel::DiscoverTargeted,
            Channel::Info,
            Channel::InfoTargeted,
            Channel::Heartbeat,
            Channel::Ping,
            Channel::PongPrefix,
            Channel::Pong,
            Channel::PingTargeted,
            Channel::Disconnect,
        ];
        proof {
            assert forall|c: Channel| r@.contains(c) by {
                match c {
                    Channel::Event => assert(r@[0] == c),
                    Channel::Request => assert(r@[1] == c),
                    Channel::Response => assert(r@[2] == c),
                    Channel::Discover => assert(r@[3] == c),
                    Channel::DiscoverTargeted => assert(r@[4] == c),
                    Channel::Info => assert(r@[5] == c),
                    Channel::InfoTargeted => assert(r@[6] == c),
                    Channel::Heartbeat => assert(r@[7] == c),
                    Channel::Ping => assert(r@[8] == c),
                    Channel::PongPrefix => assert(r@[9] == c),
                    Channel::Pong => assert(r@[10] == c),
                    Channel::PingTargeted => assert(r@[11] == c),
                    Channel::Disconnect => assert(r@[12] == c),
                }
            }
        }
        r
    }

    fn kind_word(&self) -> (r: &'static str)
        ensures
            r@ == kind_word(*self),
    {
        proof {
            reveal_strlit("EVENT");
            reveal_strlit("REQ");
            reveal_strlit("RES");
            reveal_strlit("DISCOVER");
            reveal_strlit("INFO");
            reveal_strlit("HEARTBEAT");
            reveal_strlit("PING");
            reveal_strlit("PONG");
            reveal_strlit("DISCONNECT");
        }
        match self {
            Channel::Event => "EVENT",
            Channel::Request => "REQ",
            Channel::Response => "RES",
            Channel::Discover | Channel::DiscoverTargeted => "DISCOVER",
            Channel::Info | Channel::InfoTargeted => "INFO",
            Channel::Heartbeat => "HEARTBEAT",
            Channel::Ping | Channel::PingTargeted => "PING",
            Channel::Pong | Channel::PongPrefix => "PONG",
            Channel::Disconnect => "DISCONNECT",
        }
    }

    fn is_addressed(&self) -> (r: bool)
        ensures
            r == is_addressed(*self),
    {
        match self {
            Channel::Event | Channel::Request | Channel::Response | Channel::DiscoverTargeted
            | Channel::InfoTargeted | Channel::PingTargeted | Channel::Pong => true,
            _ => false,
        }
    }

    /// This node's subject for the channel.
    pub fn channel_to_string(&self, config: &Config) -> (r: String)
        ensures
            r@ == subject_of(*self, mol_of(config.namespace@), config.node_id@),
    {
        let mut s = mol(config.namespace.as_str());
        s.append(".");
        s.append(self.kind_word());
        if self.is_addressed() {
            s.append(".");
            s.append(config.node_id.as_str());
        }
        proof {
            reveal_strlit(".");
        }
        s
    }

    /// The subject of peer `node_name` for a channel addressed to a node.
    pub fn external_channel(&self, config: &Config, node_name: &str) -> (r: String)
        requires
            is_addressed(*self),
        ensures
            r@ == peer_subject(*self, config.namespace@, node_name@),
    {
        let mut s = mol(config.namespace.as_str());
        s.append(".");
        s.append(self.kind_word());
        s.append(".");
        s.append(node_name);
        proof {
            reveal_strlit(".");
        }
        s
    }
}

/// Peer subjects of one channel and namespace are equal only for equal nodes.
pub proof fn lemma_peer_subject_injective(c: Channel, namespace: Seq<char>, a: Seq<char>, b: Seq<char>)
    requires
        peer_subject(c, namespace, a) == peer_subject(c, namespace, b),
    ensures
        a == b,
{
    let p = mol_of(namespace) + seq!['.'] + kind_word(c) + seq!['.'];
    assert(peer_subject(c, namespace, a) == p + a);
    assert(peer_subject(c, namespace, b) == p + b);
    assert(a =~= (p + a).subrange(p.len() as int, (p + a).len() as int));
    assert(b =~= (p + b).subrange(p.len() as int, (p + b).len() as int));
}

/// Global settings of a broker. Immutable once built.
pub struct Config {
    pub namespace: String,
    pub node_id: String,
    pub logger: Logger,
    pub transporter: Transporter,
    /// Per-call timeout, in milliseconds.
    pub request_timeout: i32,
    pub retry_policy: RetryPolicy,
    pub context_params_cloning: bool,
    pub dependency_internal: u32,
    pub max_call_level: u32,
    /// Outbound HEARTBEAT period, in seconds.
    pub heartbeat_interval: u32,
    /// Seconds without a HEARTBEAT after which a peer is dropped.
    pub heartbeat_timeout: u32,
    pub tracking: Tracking,
    pub disable_balancer: bool,
    pub registry: Registry,
    pub circuit_breaker: CircuitBreaker,
    pub bulkhead: Bulkhead,
    pub transit: Transit,
    pub serializer: Serializer,
    pub meta_data: Vec<(String, String)>,
    pub ip_list: Vec<String>,
    pub hostname: String,
    pub instance_id: String,
}


/// Builds a [Config]: one setter per option; every option left unset takes
/// its documented default, so building always succeeds.
pub struct ConfigBuilder {
    pub namespace: Option<String>,
    pub node_id: Option<String>,
    pub logger: Option<Logger>,
    pub transporter: Option<Transporter>,
    pub request_timeout: Option<i32>,
    pub retry_policy: Option<RetryPolicy>,
    pub context_params_cloning: Option<bool>,
    pub dependency_internal: Option<u32>,
    pub max_call_level: Option<u32>,
    pub heartbeat_interval: Option<u32>,
    pub heartbeat_timeout: Option<u32>,
    pub tracking: Option<Tracking>,
    pub disable_balancer: Option<bool>,
    pub registry: Option<Registry>,
    pub circuit_breaker: Option<CircuitBreaker>,
    pub bulkhead: Option<Bulkhead>,
    pub transit: Option<Transit>,
    pub serializer: Option<Serializer>,
    pub meta_data: Option<Vec<(String, String)>>,
}

impl ConfigBuilder {
    /// A builder with every option unset.
    pub fn new() -> (r: Self)
        ensures
            r.namespace is None,
            r.node_id is None,
            r.logger is None,
            r.transporter is None,
            r.request_timeout is None,
            r.retry_policy is None,
            r.context_params_cloning is None,
            r.dependency_internal is None,
            r.max_call_level is None,
            r.heartbeat_interval is None,
            r.heartbeat_timeout is None,
            r.tracking is None,
            r.disable_balancer is None,
            r.registry is None,
            r.circuit_breaker is None,
            r.bulkhead is None,
            r.transit is None,
            r.serializer is None,
            r.meta_data is None,
    {
        ConfigBuilder {
            namespace: None,
            node_id: None,
            logger: None,
            transporter: None,
            request_timeout: None,
            retry_policy: None,
            context_params_cloning: None,
            dependency_internal: None,
            max_call_level: None,
            heartbeat_interval: None,
            heartbeat_timeout: None,
            tracking: None,
            disable_balancer: None,
            registry: None,
            circuit_breaker: None,
            bulkhead: None,
            transit: None,
            serializer: None,
            meta_data: None,
        }
    }

    pub fn namespace(self, v: &str) -> (r: Self)
        ensures
            r.namespace is Some,
            r.namespace->0@ == v@,
            r == (ConfigBuilder { namespace: r.namespace, ..self }),
    {
        ConfigBuilder { namespace: Some(v.to_owned()), ..self }
    }

    pub fn node_id(self, v: &str) -> (r: Self)
        ensures
            r.node_id is Some,
            r.node_id->0@ == v@,
            r == (ConfigBuilder { node_id: r.node_id, ..self }),
    {
        ConfigBuilder { node_id: Some(v.to_owned()), ..self }
    }

    pub fn logger(self, v: Logger) -> (r: Self)
        ensures
            r.logger is Some,
            r.logger->0 == v,
            r == (ConfigBuilder { logger: r.logger, ..self }),
    {
        ConfigBuilder { logger: Some(v), ..self }
    }

    pub fn transporter(self, v: Transporter) -> (r: Self)
        ensures
            r.transporter is Some,
            r.transporter->0 == v,
            r == (ConfigBuilder { transporter: r.transporter, ..self }),
    {
        ConfigBuilder { transporter: Some(v), ..self }
    }

    pub fn request_timeout(self, v: i32) -> (r: Self)
        ensures
            r.request_timeout is Some,
            r.request_timeout->0 == v,
            r == (ConfigBuilder { request_timeout: r.request_timeout, ..self }),
    {
        ConfigBuilder { request_timeout: Some(v), ..self }
    }

    pub fn retry_policy(self, v: RetryPolicy) -> (r: Self)
        ensures
            r.retry_policy is Some,
            r.retry_policy->0 == v,
            r == (ConfigBuilder { retry_policy: r.retry_policy, ..self }),
    {
        ConfigBuilder { retry_policy: Some(v), ..self }
    }

    pub fn context_params_cloning(self, v: bool) -> (r: Self)
        ensures
            r.context_params_cloning is Some,
            r.context_params_cloning->0 == v,
            r == (ConfigBuilder { context_params_cloning: r.context_params_cloning, ..self }),
    {
        ConfigBuilder { context_params_cloning: Some(v), ..self }
    }

    pub fn dependency_internal(self, v: u32) -> (r: Self)
        ensures
            r.dependency_internal is Some,
            r.dependency_internal->0 == v,
            r == (ConfigBuilder { dependency_internal: r.dependency_internal, ..self }),
    {
        ConfigBuilder { dependency_internal: Some(v), ..self }
    }

    pub fn max_call_level(self, v: u32) -> (r: Self)
        ensures
            r.max_call_level is Some,
            r.max_call_level->0 == v,
            r == (ConfigBuilder { max_call_level: r.max_call_level, ..self }),
    {
        ConfigBuilder { max_call_level: Some(v), ..self }
    }

    pub fn heartbeat_interval(self, v: u32) -> (r: Self)
        ensures
            r.heartbeat_interval is Some,
            r.heartbeat_interval->0 == v,
            r == (ConfigBuilder { heartbeat_interval: r.heartbeat_interval, ..self }),
    {
        ConfigBuilder { heartbeat_interval: Some(v), ..self }
    }

    pub fn heartbeat_timeout(self, v: u32) -> (r: Self)
        ensures
            r.heartbeat_timeout is Some,
            r.heartbeat_timeout->0 == v,
            r == (ConfigBuilder { heartbeat_timeout: r.heartbeat_timeout, ..self }),
    {
        ConfigBuilder { heartbeat_timeout: Some(v), ..self }
    }

    pub fn tracking(self, v: Tracking) -> (r: Self)
        ensures
            r.tracking is Some,
            r.tracking->0 == v,
            r == (ConfigBuilder { tracking: r.tracking, ..self }),
    {
        ConfigBuilder { tracking: Some(v), ..self }
    }

    pub fn disable_balancer(self, v: bool) -> (r: Self)
        ensures
            r.disable_balancer is Some,
            r.disable_balancer->0 == v,
            r == (ConfigBuilder { disable_balancer: r.disable_balancer, ..self }),
    {
        ConfigBuilder { disable_balancer: Some(v), ..self }
    }

    pub fn registry(self, v: Registry) -> (r: Self)
        ensures
            r.registry is Some,
            r.registry->0 == v,
            r == (ConfigBuilder { registry: r.registry, ..self }),
    {
        ConfigBuilder { registry: Some(v), ..self }
    }

    pub fn circuit_breaker(self, v: CircuitBreaker) -> (r: Self)
        ensures
            r.circuit_breaker is Some,
            r.circuit_breaker->0 == v,
            r == (ConfigBuilder { circuit_breaker: r.circuit_breaker, ..self }),
    {
        ConfigBuilder { circuit_breaker: Some(v), ..self }
    }

    pub fn bulkhead(self, v: Bulkhead) -> (r: Self)
        ensures
            r.bulkhead is Some,
            r.bulkhead->0 == v,
            r == (ConfigBuilder { bulkhead: r.bulkhead, ..self }),
    {
        ConfigBuilder { bulkhead: Some(v), ..self }
    }

    pub fn transit(self, v: Transit) -> (r: Self)
        ensures
            r.transit is Some,
            r.transit->0 == v,
            r == (ConfigBuilder { transit: r.transit, ..self }),
    {
        ConfigBuilder { transit: Some(v), ..self }
    }

    pub fn serializer(self, v: Serializer) -> (r: Self)
        ensures
            r.serializer is Some,
            r.serializer->0 == v,
            r == (ConfigBuilder { serializer: r.serializer, ..self }),
    {
        ConfigBuilder { serializer: Some(v), ..self }
    }

    pub fn meta_data(self, v: Vec<(String, String)>) -> (r: Self)
        ensures
            r.meta_data is Some,
            r.meta_data->0 == v,
            r == (ConfigBuilder { meta_data: r.meta_data, ..self }),
    {
        ConfigBuilder { meta_data: Some(v), ..self }
    }

    /// The configuration, with defaults for unset options. The node id
    /// defaults to a fresh id for host `hostname` and process `pid`; the
    /// instance id is a fresh UUID; `hostname` and `ip_list` describe this host.
    pub fn build(self, hostname: String, pid: &str, ip_list: Vec<String>) -> (r: Config)
        ensures
            self.namespace is Some ==> r.namespace == self.namespace->0,
            self.namespace is None ==> r.namespace@ == Seq::<char>::empty(),
            self.node_id is Some ==> r.node_id == self.node_id->0,
            self.node_id is None ==> exists|suffix: Seq<char>|
                suffix.len() == 6 && (forall|i: int| 0 <= i < 6 ==> is_alphanumeric(#[trigger] suffix[i]))
                    && r.node_id@ == lower_of(node_id_text(hostname@, pid@, suffix)),
            self.logger is Some ==> r.logger == self.logger->0,
            self.logger is None ==> r.logger == Logger::Console,
            self.transporter is Some ==> r.transporter == self.transporter->0,
            self.transporter is None ==> r.transporter->Nats_0@ == "nats://localhost:4222"@,
            self.request_timeout is Some ==> r.request_timeout == self.request_timeout->0,
            self.request_timeout is None ==> r.request_timeout == 300_000,
            self.retry_policy is Some ==> r.retry_policy == self.retry_policy->0,
            self.retry_policy is None ==> r.retry_policy == (RetryPolicy { enabled: false, retries: 5, delay: 100, max_delay: 2000, factor: 2 }),
            self.context_params_cloning is Some ==> r.context_params_cloning == self.context_params_cloning->0,
            self.context_params_cloning is None ==> !r.context_params_cloning,
            self.dependency_internal is Some ==> r.dependency_internal == self.dependency_internal->0,
            self.dependency_internal is None ==> r.dependency_internal == 1000,
            self.max_call_level is Some ==> r.max_call_level == self.max_call_level->0,
            self.max_call_level is None ==> r.max_call_level == 0,
            self.heartbeat_interval is Some ==> r.heartbeat_interval == self.heartbeat_interval->0,
            self.heartbeat_interval is None ==> r.heartbeat_interval == 5,
            self.heartbeat_timeout is Some ==> r.heartbeat_timeout == self.heartbeat_timeout->0,
            self.heartbeat_timeout is None ==> r.heartbeat_timeout == 15,
            self.tracking is Some ==> r.tracking == self.tracking->0,
            self.tracking is None ==> r.tracking == (Tracking { enabled: false, shutdown_timeout: 10000 }),
            self.disable_balancer is Some ==> r.disable_balancer == self.disable_balancer->0,
            self.disable_balancer is None ==> !r.disable_balancer,
            self.registry is Some ==> r.registry == self.registry->0,
            self.registry is None ==> r.registry == Registry::Local,
            self.circuit_breaker is Some ==> r.circuit_breaker == self.circuit_breaker->0,
            self.circuit_breaker is None ==> r.circuit_breaker == (CircuitBreaker { enabled: false, threshold_percent: 50, min_request_count: 20, window_time: 60, half_open_time: 10000 }),
            self.bulkhead is Some ==> r.bulkhead == self.bulkhead->0,
            self.bulkhead is None ==> r.bulkhead == (Bulkhead { enabled: false, concurrency: 3, max_queue_size: 10 }),
            self.transit is Some ==> r.transit == self.transit->0,
            self.transit is None ==> r.transit.max_queue_size == 50_000 && r.transit.max_chunk_size == 256
                && !r.transit.disable_reconnect && !r.transit.disable_version_check
                && r.transit.packet_log_filter@.len() == 0,
            self.serializer is Some ==> r.serializer == self.serializer->0,
            self.serializer is None ==> r.serializer == Serializer::JSON,
            self.meta_data is Some ==> r.meta_data == self.meta_data->0,
            self.meta_data is None ==> r.meta_data@.len() == 0,
            r.hostname == hostname,
            r.ip_list == ip_list,
            is_uuid_v4(r.instance_id@),
    {
        proof {
            reveal_strlit("nats://localhost:4222");
            reveal_strlit("");
        }
        let namespace = match self.namespace {
            Some(v) => v,
            None => "".to_owned(),
        };
        let node_id = match self.node_id {
            Some(v) => v,
            None => gen_node_id(hostname.as_str(), pid),
        };
        let logger = match self.logger {
            Some(v) => v,
            None => Logger::Console,
        };
        let transporter = match self.transporter {
            Some(v) => v,
            None => Transporter::nats("nats://localhost:4222"),
        };
        let request_timeout = match self.request_timeout {
            Some(v) => v,
            None => 300_000,
        };
        let retry_policy = match self.retry_policy {
            Some(v) => v,
            None => RetryPolicy::default(),
        };
        let context_params_cloning = match self.context_params_cloning {
            Some(v) => v,
            None => false,
        };
        let dependency_internal = match self.dependency_internal {
            Some(v) => v,
            None => 1000,
        };
        let max_call_level = match self.max_call_level {
            Some(v) => v,
            None => 0,
        };
        let heartbeat_interval = match self.heartbeat_interval {
            Some(v) => v,
            None => 5,
        };
        let heartbeat_timeout = match self.heartbeat_timeout {
            Some(v) => v,
            None => 15,
        };
        let tracking = match self.tracking {
            Some(v) => v,
            None => Tracking::default(),
        };
        let disable_balancer = match self.disable_balancer {
            Some(v) => v,
            None => false,
        };
        let registry = match self.registry {
            Some(v) => v,
            None => Registry::Local,
        };
        let circuit_breaker = match self.circuit_breaker {
            Some(v) => v,
            None => CircuitBreaker::default(),
        };
        let bulkhead = match self.bulkhead {
            Some(v) => v,
            None => Bulkhead::default(),
        };
        let transit = match self.transit {
            Some(v) => v,
            None => Transit::default(),
        };
        let serializer = match self.serializer {
            Some(v) => v,
            None => Serializer::JSON,
        };
        let meta_data = match self.meta_data {
            Some(v) => v,
            None => Vec::new(),
        };
        Config {
            namespace,
            node_id,
            logger,
            transporter,
            request_timeout,
            retry_policy,
            context_params_cloning,
            dependency_internal,
            max_call_level,
            heartbeat_interval,
            heartbeat_timeout,
            tracking,
            disable_balancer,
            registry,
            circuit_breaker,
            bulkhead,
            transit,
            serializer,
            meta_data,
            ip_list,
            hostname,
            instance_id: new_uuid_v4(),
        }
    }
}

} // verus!
