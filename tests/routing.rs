use moleculer::broker::registry::{NodeWatcher, Registry, WatcherVerdict};
use moleculer::broker::{Error, ServiceBroker};
use moleculer::channels::messages::incoming::{
    Client, DisconnectMessage, HeartbeatMessage, InfoMessage, PingMessage, ResponseMessage,
};
use moleculer::channels::messages::outgoing;
use moleculer::config::{Config, ConfigBuilder};
use moleculer::service::{ActionBuilder, EventBuilder, Service};
use serde_json::Value;

fn config(namespace: &str, node: &str) -> Config {
    ConfigBuilder::new()
        .namespace(namespace)
        .node_id(node)
        .build("host".to_string(), "42", vec![])
}

fn client() -> Client {
    Client { type_: "js".to_string(), version: "0.14".to_string(), lang_version: "v16".to_string() }
}

fn info(sender: &str, events: &[&str], actions: &[&str]) -> InfoMessage {
    let mut service = Service::new("peerService");
    for e in events {
        service = service.add_event(EventBuilder::new(e).build());
    }
    for a in actions {
        service = service.add_action(ActionBuilder::new(a).build());
    }
    InfoMessage {
        ver: "4".to_string(),
        sender: sender.to_string(),
        services: vec![service],
        ip_list: vec!["10.0.0.2".to_string()],
        hostname: "peer-host".to_string(),
        client: client(),
        instance_id: "abc".to_string(),
        config: vec![],
        metadata: vec![],
    }
}

fn broker_with_peers(peers: &[(&str, &[&str], &[&str])]) -> ServiceBroker {
    let mut broker = ServiceBroker::new(config("", "local"));
    for (name, events, actions) in peers {
        assert_eq!(broker.handle_info_message(&info(name, events, actions)), Some(true));
    }
    broker
}

fn object(pairs: &[(&str, Value)]) -> Value {
    let mut map = serde_json::Map::new();
    for (k, v) in pairs {
        map.insert(k.to_string(), v.clone());
    }
    Value::Object(map)
}

#[test]
fn emit_balances_between_two_peers() {
    let mut broker = broker_with_peers(&[("alpha", &["printHi"], &[]), ("beta", &["printHi"], &[])]);
    let mut subjects = Vec::new();
    for _ in 0..4 {
        let (subject, message) = broker.emit("printHi", object(&[])).unwrap();
        assert_eq!(message.broadcast, Some(false));
        assert_eq!(message.event, "printHi");
        assert_eq!(message.sender, "local");
        assert_eq!(message.ver, "4");
        assert_eq!(message.level, 1);
        subjects.push(subject);
    }
    assert_eq!(subjects, vec!["MOL.EVENT.alpha", "MOL.EVENT.beta", "MOL.EVENT.alpha", "MOL.EVENT.beta"]);
}

#[test]
fn emit_round_robin_window_covers_every_provider_once() {
    let mut broker = broker_with_peers(&[
        ("a", &["tick"], &[]),
        ("b", &["tick"], &[]),
        ("c", &["tick"], &[]),
    ]);
    let _ = broker.emit("tick", Value::Null).unwrap();
    let mut window: Vec<String> = (0..3).map(|_| broker.emit("tick", Value::Null).unwrap().0).collect();
    window.sort();
    assert_eq!(window, vec!["MOL.EVENT.a", "MOL.EVENT.b", "MOL.EVENT.c"]);
}

#[test]
fn emit_without_provider_fails_node_not_found() {
    let mut broker = broker_with_peers(&[("alpha", &["other"], &[])]);
    match broker.emit("printHi", Value::Null) {
        Err(Error::NodeNotFound(name)) => assert_eq!(name, "printHi"),
        _ => panic!("expected NodeNotFound"),
    }
}

#[test]
fn broadcast_fans_out_once_per_provider() {
    let broker = broker_with_peers(&[
        ("alpha", &["printName"], &[]),
        ("beta", &["printName"], &[]),
        ("gamma", &["printName"], &[]),
    ]);
    let data = object(&[("name", Value::from("Ada"))]);
    let (message, subjects) = broker.broadcast("printName", data.clone()).unwrap();
    assert_eq!(subjects, vec!["MOL.EVENT.alpha", "MOL.EVENT.beta", "MOL.EVENT.gamma"]);
    assert_eq!(message.broadcast, Some(true));
    assert_eq!(message.data, data);
    assert_eq!(message.event, "printName");
}

#[test]
fn broadcast_without_provider_fails() {
    let broker = broker_with_peers(&[]);
    assert!(matches!(broker.broadcast("printName", Value::Null), Err(Error::NodeNotFound(_))));
}

#[test]
fn call_registers_waiter_and_response_resolves_it() {
    let mut broker = broker_with_peers(&[("p", &[], &["mathAdd"])]);
    let params = object(&[("a", Value::from(10)), ("b", Value::from(78))]);
    let (subject, request) = broker.call("mathAdd", params.clone()).unwrap();
    assert_eq!(subject, "MOL.REQ.p");
    assert_eq!(request.action, "mathAdd");
    assert_eq!(request.params, params);
    assert_eq!(request.request_id, request.id);
    assert_eq!(request.id.len(), 36);
    assert_eq!(request.timeout, 300_000);
    assert!(broker.waiters.is_waiting(&request.id));
    let response = ResponseMessage {
        id: request.id.clone(),
        sender: "p".to_string(),
        ver: "4".to_string(),
        data: Value::from(88),
        meta: Value::Null,
        error: None,
        success: true,
    };
    assert_eq!(broker.handle_response(&response), Some(true));
    assert!(!broker.waiters.is_waiting(&request.id));
    assert!(!broker.timeout_reached(&request.id));
}

#[test]
fn response_from_other_sender_is_still_delivered() {
    let mut broker = broker_with_peers(&[("p", &[], &["mathAdd"])]);
    let (_, request) = broker.call("mathAdd", Value::Null).unwrap();
    let response = ResponseMessage {
        id: request.id.clone(),
        sender: "q".to_string(),
        ver: "4".to_string(),
        data: Value::from(1),
        meta: Value::Null,
        error: None,
        success: true,
    };
    assert_eq!(broker.handle_response(&response), Some(false));
}

#[test]
fn call_timeout_removes_waiter() {
    let mut broker = broker_with_peers(&[("p", &[], &["mathAdd"])]);
    let (_, request) = broker.call("mathAdd", Value::Null).unwrap();
    assert!(broker.timeout_reached(&request.id));
    assert!(!broker.waiters.is_waiting(&request.id));
    let late = ResponseMessage {
        id: request.id.clone(),
        sender: "p".to_string(),
        ver: "4".to_string(),
        data: Value::from(88),
        meta: Value::Null,
        error: None,
        success: true,
    };
    assert_eq!(broker.handle_response(&late), None);
    assert!(!broker.timeout_reached(&request.id));
}

#[test]
fn call_without_provider_fails_and_registers_nothing() {
    let mut broker = broker_with_peers(&[("p", &[], &["other"])]);
    match broker.call("mathAdd", Value::Null) {
        Err(Error::NodeNotFound(name)) => assert_eq!(name, "mathAdd"),
        _ => panic!("expected NodeNotFound"),
    }
    let (_, request) = broker.call("other", Value::Null).unwrap();
    assert!(broker.waiters.is_waiting(&request.id));
}

#[test]
fn unknown_response_is_dropped() {
    let mut broker = broker_with_peers(&[("p", &[], &["mathAdd"])]);
    let (_, request) = broker.call("mathAdd", Value::Null).unwrap();
    let stray = ResponseMessage {
        id: "not-a-request".to_string(),
        sender: "p".to_string(),
        ver: "4".to_string(),
        data: Value::Null,
        meta: Value::Null,
        error: None,
        success: true,
    };
    assert_eq!(broker.handle_response(&stray), None);
    assert!(broker.waiters.is_waiting(&request.id));
}

#[test]
fn disconnect_evicts_node_and_empty_keys() {
    let mut broker = broker_with_peers(&[("alpha", &["E", "F"], &["A"]), ("beta", &["F"], &[])]);
    let bye = DisconnectMessage { ver: "4".to_string(), sender: "alpha".to_string() };
    assert!(broker.handle_disconnect_message(&bye));
    assert!(broker.registry.get_all_nodes_for_event("E").is_none());
    assert_eq!(broker.registry.get_all_nodes_for_event("F"), Some(vec!["beta".to_string()]));
    assert!(matches!(broker.emit("E", Value::Null), Err(Error::NodeNotFound(_))));
    assert!(matches!(broker.call("A", Value::Null), Err(Error::NodeNotFound(_))));
    assert!(!broker.handle_disconnect_message(&bye));
}

#[test]
fn missed_heartbeat_evicts_sole_provider() {
    let mut broker = broker_with_peers(&[("p", &["E"], &[])]);
    assert!(broker.missed_heartbeat(&"p".to_string()));
    assert!(broker.registry.get_all_nodes_for_event("E").is_none());
    assert!(matches!(broker.emit("E", Value::Null), Err(Error::NodeNotFound(_))));
}

#[test]
fn own_envelopes_are_ignored() {
    let mut broker = broker_with_peers(&[]);
    assert_eq!(broker.handle_info_message(&info("local", &["E"], &[])), None);
    assert!(broker.registry.get_all_nodes_for_event("E").is_none());
    let hb = HeartbeatMessage { ver: "4".to_string(), sender: "local".to_string(), cpu: 100 };
    assert!(!broker.handle_heartbeat_message(&hb));
    let bye = DisconnectMessage { ver: "4".to_string(), sender: "local".to_string() };
    assert!(!broker.handle_disconnect_message(&bye));
}

#[test]
fn heartbeat_from_known_peer_is_recorded() {
    let mut broker = broker_with_peers(&[("p", &["E"], &[])]);
    let hb = HeartbeatMessage { ver: "4".to_string(), sender: "p".to_string(), cpu: 1250 };
    assert!(broker.handle_heartbeat_message(&hb));
    let unknown = HeartbeatMessage { ver: "4".to_string(), sender: "q".to_string(), cpu: 1 };
    assert!(!broker.handle_heartbeat_message(&unknown));
}

#[test]
fn reobserving_same_info_changes_nothing() {
    let mut broker = broker_with_peers(&[("alpha", &["E"], &["A"]), ("beta", &["E"], &[])]);
    assert_eq!(broker.handle_info_message(&info("alpha", &["E"], &["A"])), Some(false));
    assert_eq!(
        broker.registry.get_all_nodes_for_event("E"),
        Some(vec!["alpha".to_string(), "beta".to_string()])
    );
    let (subject, _) = broker.call("A", Value::Null).unwrap();
    assert_eq!(subject, "MOL.REQ.alpha");
}

#[test]
fn reconcile_is_additive() {
    let mut registry = Registry::new();
    assert!(registry.add_or_update_node(&info("p", &["E"], &[])));
    assert!(!registry.add_or_update_node(&info("p", &["F"], &[])));
    assert_eq!(registry.get_all_nodes_for_event("E"), Some(vec!["p".to_string()]));
    assert_eq!(registry.get_all_nodes_for_event("F"), Some(vec!["p".to_string()]));
    assert!(registry.remove_node(&"p".to_string()));
    assert!(registry.get_all_nodes_for_event("E").is_none());
    assert!(registry.get_all_nodes_for_event("F").is_none());
}

#[test]
fn registry_picks_in_rotation() {
    let mut registry = Registry::new();
    registry.add_or_update_node(&info("a", &[], &["act"]));
    registry.add_or_update_node(&info("b", &[], &["act"]));
    assert_eq!(registry.get_node_name_for_action("act"), Some("a".to_string()));
    assert_eq!(registry.get_node_name_for_action("act"), Some("b".to_string()));
    assert_eq!(registry.get_node_name_for_action("act"), Some("a".to_string()));
    assert_eq!(registry.get_node_name_for_event("act"), None);
    assert_eq!(registry.get_node_name_for_action("missing"), None);
}

#[test]
fn removing_unknown_node_changes_nothing() {
    let mut registry = Registry::new();
    registry.add_or_update_node(&info("a", &["E"], &[]));
    assert!(!registry.remove_node(&"zz".to_string()));
    assert_eq!(registry.get_all_nodes_for_event("E"), Some(vec!["a".to_string()]));
}

#[test]
fn startup_announces_info_then_discover() {
    let broker = ServiceBroker::new(config("", "local"));
    let (info_subject, info_message) = broker.broadcast_info(outgoing::Client::new("0.1.0", "1.70"));
    let (discover_subject, discover_message) = broker.broadcast_discover();
    assert_eq!(info_subject, "MOL.INFO");
    assert_eq!(info_message.sender, "local");
    assert_eq!(info_message.client.type_, "rust");
    assert_eq!(discover_subject, "MOL.DISCOVER");
    assert_eq!(discover_message.sender, "local");
    assert_eq!(discover_message.ver, "4");
}

#[test]
fn discover_is_answered_on_targeted_info_subject() {
    let broker = ServiceBroker::new(config("dev", "local"));
    let discover = moleculer::channels::messages::incoming::DiscoverMessage {
        ver: "4".to_string(),
        sender: "peer".to_string(),
    };
    let (subject, _) = broker.publish_info_to_channel(&discover, outgoing::Client::new("0.1.0", "1.70"));
    assert_eq!(subject, "MOL-dev.INFO.peer");
}

#[test]
fn ping_is_answered_with_pong() {
    let broker = ServiceBroker::new(config("", "local"));
    let ping = PingMessage { ver: "4".to_string(), sender: "peer".to_string(), id: "x1".to_string(), time: 1000 };
    let (subject, pong) = broker.handle_ping(ping, 1005);
    assert_eq!(subject, "MOL.PONG.peer");
    assert_eq!(pong.sender, "local");
    assert_eq!(pong.id, "x1");
    assert_eq!(pong.time, 1000);
    assert_eq!(pong.arrived, 1005);
}

#[test]
fn reply_goes_to_requester_response_subject() {
    let broker = ServiceBroker::new(config("", "local"));
    let (subject, response) = broker.reply("p", "r1", Value::from(88));
    assert_eq!(subject, "MOL.RES.p");
    assert_eq!(response.id, "r1");
    assert_eq!(response.data, Value::from(88));
    assert!(response.success);
    assert!(response.error.is_none());
}

#[test]
fn disconnect_and_heartbeat_announcements() {
    let broker = ServiceBroker::new(config("ns", "local"));
    let (subject, bye) = broker.send_disconnect();
    assert_eq!(subject, "MOL-ns.DISCONNECT");
    assert_eq!(bye.sender, "local");
    let (subject, hb) = broker.send_heartbeat(250);
    assert_eq!(subject, "MOL-ns.HEARTBEAT");
    assert_eq!(hb.cpu, 250);
}

#[test]
fn node_watcher_fires_after_timeout() {
    let mut watcher = NodeWatcher::new("p".to_string(), 15, 100);
    assert_eq!(watcher.tick(114), WatcherVerdict::Rearm);
    assert_eq!(watcher.tick(115), WatcherVerdict::Missed);
    watcher.received_heartbeat(110);
    assert_eq!(watcher.tick(115), WatcherVerdict::Rearm);
    assert_eq!(watcher.tick(125), WatcherVerdict::Missed);
    assert_eq!(watcher.tick(50), WatcherVerdict::Rearm);
}
