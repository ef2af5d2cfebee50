use moleculer::broker::{Error, ServiceBroker};
use moleculer::channels::messages::incoming::{EventMessage, RequestMessage};
use moleculer::channels::messages::outgoing::{DisconnectMessage, DiscoverMessage};
use moleculer::config::{
    mol, Bulkhead, Channel, CircuitBreaker, ConfigBuilder, Logger, Registry, RetryPolicy, Serializer,
    Tracking, Transit, Transporter,
};
use moleculer::data_structures::QueueSet;
use moleculer::nats::{PublishRetry, Severity};
use moleculer::service::{Action, ActionBuilder, Context, Event, EventBuilder, EventType, Service};
use moleculer::util::{format_node_id, gen_node_id, hostname};
use serde_json::Value;

fn event_message(event: &str) -> EventMessage {
    EventMessage {
        id: "1".to_string(),
        sender: "peer".to_string(),
        ver: "4".to_string(),
        event: event.to_string(),
        data: Value::Null,
        meta: Value::Null,
        level: 1,
        tracing: None,
        parent_id: None,
        request_id: None,
        caller: None,
        stream: None,
        seq: None,
        groups: None,
        broadcast: Some(true),
    }
}

fn request_message(action: &str) -> RequestMessage {
    RequestMessage {
        id: "1".to_string(),
        sender: "peer".to_string(),
        ver: "4".to_string(),
        action: action.to_string(),
        params: Value::Null,
        meta: Value::Null,
        timeout: 1000,
        level: 1,
        tracing: None,
        parent_id: None,
        request_id: "1".to_string(),
        caller: None,
        stream: None,
        seq: None,
    }
}

fn local_broker() -> ServiceBroker {
    let config = ConfigBuilder::new().node_id("local").build("host".to_string(), "1", vec![]);
    let mut broker = ServiceBroker::new(config);
    let greeter = Service::new("greeter")
        .add_event(EventBuilder::new("printHi").add_callback(0).build())
        .add_event(EventBuilder::new("unbound").build())
        .add_action(ActionBuilder::new("mathAdd").add_callback(1).build())
        .add_action(ActionBuilder::new("noop").build());
    broker.add_service(greeter);
    broker
}

#[test]
fn queue_set_insert_is_noop_on_member() {
    let mut q = QueueSet::new();
    q.insert("a".to_string());
    q.insert("b".to_string());
    q.insert("a".to_string());
    assert_eq!(q.len(), 2);
    assert_eq!(q.iter(), vec!["a".to_string(), "b".to_string()]);
}

#[test]
fn queue_set_reinsert_keeps_position() {
    let mut q = QueueSet::new();
    q.insert("a".to_string());
    q.insert("b".to_string());
    assert_eq!(q.get_round_robin(), Some("a".to_string()));
    q.insert("a".to_string());
    assert_eq!(q.get_round_robin(), Some("b".to_string()));
    assert_eq!(q.get_round_robin(), Some("a".to_string()));
}

#[test]
fn queue_set_remove_keeps_order() {
    let mut q = QueueSet::new();
    for x in ["a", "b", "c", "d"] {
        q.insert(x.to_string());
    }
    q.remove(&"b".to_string());
    q.remove(&"zz".to_string());
    assert_eq!(q.iter(), vec!["a".to_string(), "c".to_string(), "d".to_string()]);
    assert!(!q.contains(&"b".to_string()));
}

#[test]
fn queue_set_round_robin_rotates() {
    let mut q = QueueSet::new();
    assert_eq!(q.get_round_robin(), None);
    for x in ["alpha", "beta", "gamma"] {
        q.insert(x.to_string());
    }
    let picks: Vec<String> = (0..6).map(|_| q.get_round_robin().unwrap()).collect();
    assert_eq!(picks, vec!["alpha", "beta", "gamma", "alpha", "beta", "gamma"]);
    assert_eq!(q.iter(), vec!["alpha".to_string(), "beta".to_string(), "gamma".to_string()]);
}

#[test]
fn incoming_event_dispatch() {
    let broker = local_broker();
    assert_eq!(broker.handle_incoming_event(&event_message("printHi")).ok(), Some(0));
    match broker.handle_incoming_event(&event_message("missing")) {
        Err(Error::EventNotFound(n)) => assert_eq!(n, "missing"),
        _ => panic!("expected EventNotFound"),
    }
    match broker.handle_incoming_event(&event_message("unbound")) {
        Err(Error::EventCallbackNotFound(n)) => assert_eq!(n, "unbound"),
        _ => panic!("expected EventCallbackNotFound"),
    }
}

#[test]
fn incoming_request_dispatch() {
    let broker = local_broker();
    assert_eq!(broker.handle_incoming_request(&request_message("mathAdd")).ok(), Some(1));
    assert!(matches!(broker.handle_incoming_request(&request_message("nope")), Err(Error::ActionNotFound(_))));
    assert!(matches!(
        broker.handle_incoming_request(&request_message("noop")),
        Err(Error::ActionCallbackNotFound(_))
    ));
}

#[test]
fn later_service_wins_on_same_event_name() {
    let mut broker = local_broker();
    broker.add_services(vec![Service::new("other").add_event(EventBuilder::new("printHi").add_callback(7).build())]);
    assert_eq!(broker.handle_incoming_event(&event_message("printHi")).ok(), Some(7));
    assert_eq!(broker.services.len(), 2);
}

#[test]
fn service_add_event_replaces_same_name() {
    let s = Service::new("svc")
        .set_version(2)
        .add_event(EventBuilder::new("e").add_callback(1).build())
        .add_event(EventBuilder::new("f").build())
        .add_event(EventBuilder::new("e").add_callback(3).build());
    assert_eq!(s.version, Some(2));
    assert_eq!(s.events.len(), 2);
    assert_eq!(s.events[0].name, "e");
    assert_eq!(s.events[0].callback, Some(3));
    assert_eq!(s.events[1].name, "f");
}

#[test]
fn builders_keep_params() {
    let params = Value::from("schema");
    let e = EventBuilder::new("x").add_params(params.clone()).build();
    assert_eq!(e.params, Some(params.clone()));
    assert_eq!(e.callback, None);
    let a = ActionBuilder::new("y").add_params(params.clone()).add_callback(4).build();
    assert_eq!(a.name, "y");
    assert_eq!(a.params, Some(params));
    assert_eq!(a.callback, Some(4));
}

#[test]
fn event_type_from_flag() {
    assert_eq!(EventType::from_broadcast_flag(Some(true)), EventType::Broadcast);
    assert_eq!(EventType::from_broadcast_flag(Some(false)), EventType::Emit);
    assert_eq!(EventType::from_broadcast_flag(None), EventType::Emit);
}

#[test]
fn subject_prefix_follows_namespace() {
    assert_eq!(mol(""), "MOL");
    assert_eq!(mol("staging"), "MOL-staging");
}

#[test]
fn channel_subjects() {
    let config = ConfigBuilder::new().node_id("n1").build("host".to_string(), "1", vec![]);
    let expected = [
        (Channel::Event, "MOL.EVENT.n1"),
        (Channel::Request, "MOL.REQ.n1"),
        (Channel::Response, "MOL.RES.n1"),
        (Channel::Discover, "MOL.DISCOVER"),
        (Channel::DiscoverTargeted, "MOL.DISCOVER.n1"),
        (Channel::Info, "MOL.INFO"),
        (Channel::InfoTargeted, "MOL.INFO.n1"),
        (Channel::Heartbeat, "MOL.HEARTBEAT"),
        (Channel::Ping, "MOL.PING"),
        (Channel::PingTargeted, "MOL.PING.n1"),
        (Channel::PongPrefix, "MOL.PONG"),
        (Channel::Pong, "MOL.PONG.n1"),
        (Channel::Disconnect, "MOL.DISCONNECT"),
    ];
    for (channel, subject) in expected {
        assert_eq!(channel.channel_to_string(&config), subject);
    }
    assert_eq!(Channel::all().len(), 13);
    assert_eq!(Channel::Event.external_channel(&config, "peer"), "MOL.EVENT.peer");
    assert_eq!(Channel::Response.external_channel(&config, "peer"), "MOL.RES.peer");
}

#[test]
fn namespaced_subjects() {
    let config = ConfigBuilder::new().namespace("ns").node_id("n1").build("host".to_string(), "1", vec![]);
    assert_eq!(Channel::Event.channel_to_string(&config), "MOL-ns.EVENT.n1");
    assert_eq!(Channel::Request.external_channel(&config, "p"), "MOL-ns.REQ.p");
}

#[test]
fn config_defaults() {
    let config = ConfigBuilder::new().build("myhost".to_string(), "77", vec!["10.0.0.1".to_string()]);
    assert_eq!(config.namespace, "");
    assert_eq!(config.request_timeout, 300_000);
    assert_eq!(config.heartbeat_interval, 5);
    assert_eq!(config.heartbeat_timeout, 15);
    assert_eq!(config.serializer, Serializer::JSON);
    assert_eq!(config.logger, Logger::Console);
    assert_eq!(config.registry, Registry::Local);
    assert_eq!(config.max_call_level, 0);
    assert_eq!(config.dependency_internal, 1000);
    assert!(!config.disable_balancer);
    assert!(!config.context_params_cloning);
    assert!(config.meta_data.is_empty());
    assert_eq!(config.hostname, "myhost");
    assert_eq!(config.ip_list, vec!["10.0.0.1".to_string()]);
    assert_eq!(config.instance_id.len(), 36);
    match &config.transporter {
        Transporter::Nats(address) => assert_eq!(address, "nats://localhost:4222"),
    }
    assert!(config.node_id.starts_with("myhost.77-"));
    assert_eq!(config.node_id.len(), "myhost.77-".len() + 6);
}

#[test]
fn config_setters_override_defaults() {
    let config = ConfigBuilder::new()
        .transporter(Transporter::nats("nats://nats:4222"))
        .request_timeout(5000)
        .heartbeat_interval(1)
        .heartbeat_timeout(3)
        .build("h".to_string(), "1", vec![]);
    assert_eq!(config.request_timeout, 5000);
    assert_eq!(config.heartbeat_interval, 1);
    assert_eq!(config.heartbeat_timeout, 3);
    match &config.transporter {
        Transporter::Nats(address) => assert_eq!(address, "nats://nats:4222"),
    }
}

#[test]
fn default_settings() {
    let r = RetryPolicy::default();
    assert_eq!((r.enabled, r.retries, r.delay, r.max_delay, r.factor), (false, 5, 100, 2000, 2));
    let t = Tracking::default();
    assert_eq!((t.enabled, t.shutdown_timeout), (false, 10000));
    let c = CircuitBreaker::default();
    assert_eq!((c.enabled, c.threshold_percent, c.min_request_count, c.window_time, c.half_open_time), (false, 50, 20, 60, 10000));
    let b = Bulkhead::default();
    assert_eq!((b.enabled, b.concurrency, b.max_queue_size), (false, 3, 10));
    let tr = Transit::default();
    assert_eq!((tr.max_queue_size, tr.max_chunk_size, tr.disable_reconnect, tr.disable_version_check), (50_000, 256, false, false));
    assert!(tr.packet_log_filter.is_empty());
}

#[test]
fn node_id_is_lowercased() {
    assert_eq!(format_node_id("MyHost", "123", "AbC9xZ"), "myhost.123-abc9xz");
}

#[test]
fn generated_node_id_shape() {
    let id = gen_node_id("Box", "9");
    assert!(id.starts_with("box.9-"));
    let suffix = &id["box.9-".len()..];
    assert_eq!(suffix.len(), 6);
    assert!(suffix.chars().all(|c| c.is_ascii_digit() || c.is_ascii_lowercase()));
}

#[test]
fn hostname_normalised() {
    assert_eq!(hostname(Some("WORKSTATION")), "workstation");
    assert_eq!(hostname(None), "unknown_host_name");
}

#[test]
fn plain_announcements() {
    let d = DisconnectMessage::new("node-1");
    assert_eq!((d.ver.as_str(), d.sender.as_str()), ("4", "node-1"));
    let d = DiscoverMessage::new("node-2");
    assert_eq!((d.ver.as_str(), d.sender.as_str()), ("4", "node-2"));
}

#[test]
fn request_ids_are_hyphenated_uuids() {
    let config = ConfigBuilder::new().node_id("n").build("h".to_string(), "1", vec![]);
    let r = moleculer::channels::messages::outgoing::RequestMessage::new(&config, "a", Value::Null);
    assert_eq!(r.id.as_bytes()[14], b'4');
    assert!(matches!(r.id.as_bytes()[19], b'8' | b'9' | b'a' | b'b'));
    assert!(r.meta.is_none());
    let e = moleculer::channels::messages::outgoing::EventMessage::new_for_emit(&config, "ev", Value::Null);
    assert_eq!(e.id.as_bytes()[14], b'4');
    assert!(matches!(e.id.as_bytes()[19], b'8' | b'9' | b'a' | b'b'));
    assert!(e.meta.is_empty());
    let dashes: Vec<usize> = r.id.char_indices().filter(|(_, c)| *c == '-').map(|(i, _)| i).collect();
    assert_eq!(dashes, vec![8, 13, 18, 23]);
    assert!(r.id.chars().all(|c| c == '-' || c.is_ascii_digit() || ('a'..='f').contains(&c)));
    let other = moleculer::channels::messages::outgoing::RequestMessage::new(&config, "a", Value::Null);
    assert_ne!(r.id, other.id);
}

#[test]
fn event_context_reads_envelope() {
    let mut message = event_message("printName");
    message.caller = Some("caller-1".to_string());
    message.level = 3;
    let ctx = Context::<Event, u8>::new(message, 9);
    assert_eq!(ctx.broker, 9);
    assert_eq!(ctx.id, "1");
    assert_eq!(ctx.node_id, "peer");
    assert_eq!(ctx.event_name.as_deref(), Some("printName"));
    assert_eq!(ctx.event_type, Some(EventType::Broadcast));
    assert_eq!(ctx.caller.as_deref(), Some("caller-1"));
    assert_eq!(ctx.level, 3);
    assert!(ctx.action.is_none());
}

#[test]
fn action_context_answers_request_id() {
    let mut message = request_message("mathAdd");
    message.request_id = "req-7".to_string();
    message.level = 4;
    let ctx = Context::<Action, ()>::new(message, ());
    assert_eq!(ctx.id, "req-7");
    assert_eq!(ctx.request_id.as_deref(), Some("req-7"));
    assert_eq!(ctx.action.as_deref(), Some("mathAdd"));
    assert_eq!(ctx.level, 4);
    assert!(ctx.event_type.is_none());
}

#[test]
fn error_messages_name_their_subject() {
    assert_eq!(Error::EventNotFound("e1".to_string()).message(), "Unable to find event 'e1' in registry");
    assert_eq!(Error::ActionCallbackNotFound("a1".to_string()).message(), "Unable to find callback function for action 'a1'");
    assert_eq!(Error::NodeNotFound("x".to_string()).message(), "Node not found for ('x') event or action");
    assert_eq!(Error::EventCallbackFailed("boom".to_string()).message(), "Call back function failed to complete: boom");
}

#[test]
fn publish_failures_escalate_at_fifth() {
    let mut retry = PublishRetry::new();
    let levels: Vec<Severity> = (0..6).map(|_| retry.failed()).collect();
    assert_eq!(
        levels,
        vec![Severity::Warning, Severity::Warning, Severity::Warning, Severity::Warning, Severity::Error, Severity::Error]
    );
    assert_eq!(retry.failures, 6);
    let mut saturated = PublishRetry { failures: u32::MAX };
    assert_eq!(saturated.failed(), Severity::Error);
    assert_eq!(saturated.failures, u32::MAX);
}

#[test]
fn duplicate_names_make_a_service_ill_formed() {
    let good = Service::new("svc").add_event(EventBuilder::new("e").build()).add_action(ActionBuilder::new("e").build());
    assert!(good.is_wf());
    let mut bad = Service::new("svc").add_event(EventBuilder::new("e").build());
    bad.events.push(EventBuilder::new("e").build());
    assert!(!bad.is_wf());
    let mut bad_actions = Service::new("svc").add_action(ActionBuilder::new("a").build());
    bad_actions.actions.push(ActionBuilder::new("a").build());
    assert!(!bad_actions.is_wf());
}
