//! The broker's state and decisions: who hosts what, where to route an
//! emit, a broadcast or a call, and what to do with each inbound envelope.
//! Every decision that sends something returns the subject and the envelope;
//! the caller publishes them.
use vstd::prelude::*;
use vstd::string::*;
use crate::broker::registry::{
    Registry, same_identity, declared_actions, declared_events, names, pruned, reconciled,
};
use crate::channels::messages::incoming;
use crate::channels::messages::outgoing::{
    Client, DisconnectMessage, DiscoverMessage, EventMessage, HeartbeatMessage, InfoMessage,
    PongMessage, RequestMessage, ResponseMessage, protocol_version,
};
use crate::channels::response::{Response, settled};
use crate::config::{Channel, Config, lemma_peer_subject_injective, mol_of, peer_subject, subject_of};
use crate::data_structures::rotated;
use crate::service::{Service, action_names, event_names};
use crate::util::is_uuid_v4;

pub mod registry;

verus! {

/// Why the broker could not route or dispatch.
#[derive(Debug)]
pub enum Error {
    /// An inbound EVENT names an event this node does not host.
    EventNotFound(String),
    /// The event is hosted here but no handler is bound to it.
    EventCallbackNotFound(String),
    /// The event's handler reported a failure.
    EventCallbackFailed(String),
    /// An inbound REQUEST names an action this node does not host.
    ActionNotFound(String),
    /// The action is hosted here but no handler is bound to it.
    ActionCallbackNotFound(String),
    /// The action's handler reported a failure.
    ActionCallbackFailed(String),
    /// No known node hosts the event or action.
    NodeNotFound(String),
}

/// `prefix`, then `name` in single quotes, then `suffix`.
pub open spec fn quoted(prefix: Seq<char>, name: Seq<char>, suffix: Seq<char>) -> Seq<char> {
    prefix + seq!['\''] + name + seq!['\''] + suffix
}

fn quote(prefix: &str, name: &String, suffix: &str) -> (r: String)
    ensures
        r@ == quoted(prefix@, name@, suffix@),
{
    let mut s = prefix.to_owned();
    s.append("'");
    s.append(name.as_str());
    s.append("'");
    s.append(suffix);
    proof {
        reveal_strlit("'");
        assert(s@ =~= quoted(prefix@, name@, suffix@));
    }
    s
}

impl Error {
    /// The text of the error, naming the event, action or failure.
    pub fn message(&self) -> (r: String)
        ensures
            match self {
                Error::EventNotFound(n) => r@ == quoted("Unable to find event "@, n@, " in registry"@),
                Error::EventCallbackNotFound(n) => r@ == quoted("Unable to find callback function for event "@, n@, ""@),
                Error::EventCallbackFailed(m) => r@ == "Call back function failed to complete: "@ + m@,
                Error::ActionNotFound(n) => r@ == quoted("Unable to find action "@, n@, " in registry"@),
                Error::ActionCallbackNotFound(n) => r@ == quoted("Unable to find callback function for action "@, n@, ""@),
                Error::ActionCallbackFailed(m) => r@ == "Call back function failed to complete: "@ + m@,
                Error::NodeNotFound(n) => r@ == quoted("Node not found for ("@, n@, ") event or action"@),
            },
    {
        match self {
            Error::EventNotFound(n) => quote("Unable to find event ", n, " in registry"),
            Error::EventCallbackNotFound(n) => quote("Unable to find callback function for event ", n, ""),
            Error::ActionNotFound(n) => quote("Unable to find action ", n, " in registry"),
            Error::ActionCallbackNotFound(n) => quote("Unable to find callback function for action ", n, ""),
            Error::NodeNotFound(n) => quote("Node not found for (", n, ") event or action"),
            Error::EventCallbackFailed(m) | Error::ActionCallbackFailed(m) => {
                let mut s = "Call back function failed to complete: ".to_owned();
                s.append(m.as_str());
                s
            },
        }
    }
}

/// The handler bound to local event `name`: the last service declaring it
/// decides. `None` when no service declares it.
pub open spec fn event_handler(services: Seq<Service>, name: Seq<char>) -> Option<Option<usize>>
    decreases services.len(),
{
    if services.len() == 0 {
        None
    } else {
        let last = services.last();
        if event_names(last.events@).contains(name) {
            Some(last.events@[event_names(last.events@).index_of(name)].callback)
        } else {
            event_handler(services.drop_last(), name)
        }
    }
}

/// The handler bound to local action `name`, as for events.
pub open spec fn action_handler(services: Seq<Service>, name: Seq<char>) -> Option<Option<usize>>
    decreases services.len(),
{
    if services.len() == 0 {
        None
    } else {
        let last = services.last();
        if action_names(last.actions@).contains(name) {
            Some(last.actions@[action_names(last.actions@).index_of(name)].callback)
        } else {
            action_handler(services.drop_last(), name)
        }
    }
}

/// Every service lists each event and each action once.
pub open spec fn services_wf(services: Seq<Service>) -> bool {
    forall|i: int| 0 <= i < services.len() ==> #[trigger] services[i].wf()
}

fn find_event(services: &Vec<Service>, name: &String) -> (r: Option<Option<usize>>)
    requires
        services_wf(services@),
    ensures
        r == event_handler(services@, name@),
{
    let mut i: usize = services.len();
    proof {
        assert(services@.subrange(0, i as int) =~= services@);
    }
    while i > 0
        invariant
            i <= services@.len(),
            services_wf(services@),
            event_handler(services@, name@) == event_handler(services@.subrange(0, i as int), name@),
        decreases i,
    {
        let s = &services[i - 1];
        let ghost pre = services@.subrange(0, i as int);
        proof {
            assert(pre.last() == *s);
            assert(pre.drop_last() =~= services@.subrange(0, i - 1));
            assert(s.wf());
        }
        let mut j: usize = 0;
        while j < s.events.len()
            invariant
                j <= s.events@.len(),
                s.wf(),
                pre.len() > 0,
                pre.last() == *s,
                event_handler(services@, name@) == event_handler(pre, name@),
                forall|k: int| 0 <= k < j ==> s.events@[k].name@ != name@,
            decreases s.events@.len() - j,
        {
            if s.events[j].name == *name {
                proof {
                    let ns = event_names(s.events@);
                    assert(ns[j as int] == name@);
                    assert(ns.contains(name@));
                    let k = ns.index_of(name@);
                    assert(ns[k] == name@);
                    assert(k == j as int);
                    assert(pre.len() > 0);
                    assert(event_handler(pre, name@) == Some(s.events@[j as int].callback));
                }
                return Some(s.events[j].callback);
            }
            j = j + 1;
        }
        proof {
            let ns = event_names(s.events@);
            if ns.contains(name@) {
                let k = choose|k: int| 0 <= k < ns.len() && ns[k] == name@;
                assert(s.events@[k].name@ == name@);
            }
        }
        i = i - 1;
    }
    None
}

fn find_action(services: &Vec<Service>, name: &String) -> (r: Option<Option<usize>>)
    requires
        services_wf(services@),
    ensures
        r == action_handler(services@, name@),
{
    let mut i: usize = services.len();
    proof {
        assert(services@.subrange(0, i as int) =~= services@);
    }
    while i > 0
        invariant
            i <= services@.len(),
            services_wf(services@),
            action_handler(services@, name@) == action_handler(services@.subrange(0, i as int), name@),
        decreases i,
    {
        let s = &services[i - 1];
        let ghost pre = services@.subrange(0, i as int);
        proof {
            assert(pre.last() == *s);
            assert(pre.drop_last() =~= services@.subrange(0, i - 1));
            assert(s.wf());
        }
        let mut j: usize = 0;
        while j < s.actions.len()
            invariant
                j <= s.actions@.len(),
                s.wf(),
                pre.len() > 0,
                pre.last() == *s,
                action_handler(services@, name@) == action_handler(pre, name@),
                forall|k: int| 0 <= k < j ==> s.actions@[k].name@ != name@,
            decreases s.actions@.len() - j,
        {
            if s.actions[j].name == *name {
                proof {
                    let ns = action_names(s.actions@);
                    assert(ns[j as int] == name@);
                    assert(ns.contains(name@));
                    let k = ns.index_of(name@);
                    assert(ns[k] == name@);
                    assert(k == j as int);
                    assert(pre.len() > 0);
                    assert(action_handler(pre, name@) == Some(s.actions@[j as int].callback));
                }
                return Some(s.actions[j].callback);
            }
            j = j + 1;
        }
        proof {
            let ns = action_names(s.actions@);
            if ns.contains(name@) {
                let k = choose|k: int| 0 <= k < ns.len() && ns[k] == name@;
                assert(s.actions@[k].name@ == name@);
            }
        }
        i = i - 1;
    }
    None
}

/// The broker: this node's configuration and services, the registry of
/// peers, and the calls waiting for a response.
pub struct ServiceBroker {
    pub config: Config,
    pub services: Vec<Service>,
    pub registry: Registry,
    pub waiters: Response,
}

impl ServiceBroker {
    pub open spec fn wf(&self) -> bool {
        self.registry.wf() && services_wf(self.services@)
    }

    pub fn new(config: Config) -> (r: Self)
        ensures
            r.wf(),
            r.config == config,
            r.services@.len() == 0,
            r.registry.events_view().len() == 0,
            r.registry.actions_view().len() == 0,
            r.registry.nodes_view().len() == 0,
            r.waiters.view().len() == 0,
    {
        ServiceBroker { config, services: Vec::new(), registry: Registry::new(), waiters: Response::new() }
    }

    /// Hosts `service` here, after the services already hosted.
    pub fn add_service(&mut self, service: Service)
        requires
            old(self).wf(),
            service.wf(),
        ensures
            final(self).wf(),
            final(self).services@ == old(self).services@.push(service),
            final(self).config == old(self).config,
            final(self).registry == old(self).registry,
            final(self).waiters == old(self).waiters,
    {
        self.services.push(service);
    }

    /// Hosts every service of `services`, in order, after those already hosted.
    pub fn add_services(&mut self, services: Vec<Service>)
        requires
            old(self).wf(),
            services_wf(services@),
        ensures
            final(self).wf(),
            final(self).services@ == old(self).services@ + services@,
            final(self).config == old(self).config,
            final(self).registry == old(self).registry,
            final(self).waiters == old(self).waiters,
    {
        let ghost added = services@;
        let mut services = services;
        self.services.append(&mut services);
        proof {
            assert(self.services@ == old(self).services@ + added);
            assert forall|i: int| 0 <= i < self.services@.len() implies #[trigger] self.services@[i].wf() by {
                if i >= old(self).services@.len() {
                    assert(self.services@[i] == added[i - old(self).services@.len()]);
                }
            }
        }
    }

    /// Routes an emit of `event_name`: the node that has waited longest in
    /// the event's rotation gets one EVENT envelope with `broadcast` false.
    pub fn emit(&mut self, event_name: &str, params: serde_json::Value) -> (r: Result<(String, EventMessage), Error>)
        requires
            old(self).wf(),
        ensures
            final(self).wf(),
            final(self).config == old(self).config,
            final(self).services == old(self).services,
            final(self).waiters == old(self).waiters,
            final(self).registry.nodes_view() == old(self).registry.nodes_view(),
            final(self).registry.actions_view() == old(self).registry.actions_view(),
            match r {
                Ok((subject, message)) => {
                    let q = old(self).registry.events_view()[event_name@];
                    &&& old(self).registry.events_view().contains_key(event_name@)
                    &&& subject@ == peer_subject(Channel::Event, old(self).config.namespace@, q[0])
                    &&& message.is_fresh_event(&old(self).config, event_name@, params)
                    &&& message.broadcast == Some(false)
                    &&& final(self).registry.events_view() == old(self).registry.events_view().insert(event_name@, rotated(q))
                },
                Err(e) => {
                    &&& !old(self).registry.events_view().contains_key(event_name@)
                    &&& e matches Error::NodeNotFound(n) && n@ == event_name@
                    &&& final(self).registry.events_view() == old(self).registry.events_view()
                },
            },
    {
        match self.registry.get_node_name_for_event(event_name) {
            Some(node) => {
                let subject = Channel::Event.external_channel(&self.config, node.as_str());
                let message = EventMessage::new_for_emit(&self.config, event_name, params);
                Ok((subject, message))
            },
            None => Err(Error::NodeNotFound(event_name.to_owned())),
        }
    }

    /// Routes a broadcast of `event_name`: one EVENT envelope, with
    /// `broadcast` true, for each node hosting the event, to each node's own
    /// subject, in rotation order.
    pub fn broadcast(&self, event_name: &str, params: serde_json::Value) -> (r: Result<(EventMessage, Vec<String>), Error>)
        requires
            self.wf(),
        ensures
            match r {
                Ok((message, subjects)) => {
                    let q = self.registry.events_view()[event_name@];
                    &&& self.registry.events_view().contains_key(event_name@)
                    &&& subjects@.len() == q.len()
                    &&& forall|i: int| 0 <= i < q.len() ==> #[trigger] subjects@[i]@
                        == peer_subject(Channel::Event, self.config.namespace@, q[i])
                    &&& names(subjects@).no_duplicates()
                    &&& message.is_fresh_event(&self.config, event_name@, params)
                    &&& message.broadcast == Some(true)
                },
                Err(e) => {
                    &&& !self.registry.events_view().contains_key(event_name@)
                    &&& e matches Error::NodeNotFound(n) && n@ == event_name@
                },
            },
    {
        let nodes = match self.registry.get_all_nodes_for_event(event_name) {
            Some(nodes) => nodes,
            None => {
                return Err(Error::NodeNotFound(event_name.to_owned()));
            },
        };
        let ghost q = self.registry.events_view()[event_name@];
        let message = EventMessage::new_for_broadcast(&self.config, event_name, params);
        let mut subjects: Vec<String> = Vec::new();
        let mut i: usize = 0;
        while i < nodes.len()
            invariant
                i <= nodes@.len(),
                names(nodes@) == q,
                subjects@.len() == i,
                forall|j: int| 0 <= j < i ==> #[trigger] subjects@[j]@
                    == peer_subject(Channel::Event, self.config.namespace@, q[j]),
            decreases nodes@.len() - i,
        {
            proof {
                assert(q[i as int] == nodes@[i as int]@);
            }
            subjects.push(Channel::Event.external_channel(&self.config, nodes[i].as_str()));
            i = i + 1;
        }
        proof {
            assert(q.no_duplicates());
            assert forall|j: int, k: int| 0 <= j < q.len() && 0 <= k < q.len() && j != k
                implies names(subjects@)[j] != names(subjects@)[k] by {
                assert(names(subjects@)[j] == subjects@[j]@);
                assert(names(subjects@)[k] == subjects@[k]@);
                if subjects@[j]@ == subjects@[k]@ {
                    lemma_peer_subject_injective(Channel::Event, self.config.namespace@, q[j], q[k]);
                }
            }
        }
        Ok((message, subjects))
    }

    /// Routes a call of `action_name`: the node that has waited longest in
    /// the action's rotation gets a REQUEST, whose waiter is registered
    /// before the envelope is handed back. With no provider the call fails
    /// at once and nothing is registered.
    pub fn call(&mut self, action_name: &str, params: serde_json::Value) -> (r: Result<(String, RequestMessage), Error>)
        requires
            old(self).wf(),
        ensures
            final(self).wf(),
            final(self).config == old(self).config,
            final(self).services == old(self).services,
            final(self).registry.nodes_view() == old(self).registry.nodes_view(),
            final(self).registry.events_view() == old(self).registry.events_view(),
            match r {
                Ok((subject, message)) => {
                    let q = old(self).registry.actions_view()[action_name@];
                    &&& old(self).registry.actions_view().contains_key(action_name@)
                    &&& subject@ == peer_subject(Channel::Request, old(self).config.namespace@, q[0])
                    &&& is_uuid_v4(message.id@)
                    &&& message.request_id@ == message.id@
                    &&& message.sender@ == old(self).config.node_id@
                    &&& message.ver@ == protocol_version()
                    &&& message.action@ == action_name@
                    &&& message.params == params
                    &&& message.meta is None
                    &&& message.timeout == old(self).config.request_timeout
                    &&& message.level == 1
                    &&& final(self).registry.actions_view() == old(self).registry.actions_view().insert(action_name@, rotated(q))
                    &&& final(self).waiters.view() == old(self).waiters.view().insert(message.request_id@, q[0])
                },
                Err(e) => {
                    &&& !old(self).registry.actions_view().contains_key(action_name@)
                    &&& e matches Error::NodeNotFound(n) && n@ == action_name@
                    &&& final(self).registry.actions_view() == old(self).registry.actions_view()
                    &&& final(self).waiters == old(self).waiters
                },
            },
    {
        match self.registry.get_node_name_for_action(action_name) {
            Some(node) => {
                let subject = Channel::Request.external_channel(&self.config, node.as_str());
                let message = RequestMessage::new(&self.config, action_name, params);
                self.waiters.start_response_waiter(self.config.request_timeout, node, message.request_id.clone());
                Ok((subject, message))
            },
            None => Err(Error::NodeNotFound(action_name.to_owned())),
        }
    }

    /// The RESPONSE to request `id` of node `node`, carrying `reply`.
    pub fn reply(&self, node: &str, id: &str, reply: serde_json::Value) -> (r: (String, ResponseMessage))
        ensures
            r.0@ == peer_subject(Channel::Response, self.config.namespace@, node@),
            r.1.id@ == id@,
            r.1.sender@ == self.config.node_id@,
            r.1.ver@ == protocol_version(),
            r.1.data == reply,
            r.1.meta is None,
            r.1.error is None,
            r.1.success,
    {
        let message = ResponseMessage::new(&self.config, id, reply);
        (Channel::Response.external_channel(&self.config, node), message)
    }

    /// Reconciles a peer's INFO; this node's own INFO is ignored. Returns
    /// whether the sender was new, or `None` when it was this node.
    pub fn handle_info_message(&mut self, info: &incoming::InfoMessage) -> (r: Option<bool>)
        requires
            old(self).wf(),
        ensures
            final(self).wf(),
            final(self).config == old(self).config,
            final(self).services == old(self).services,
            final(self).waiters == old(self).waiters,
            info.sender@ == old(self).config.node_id@ ==> r is None && final(self).registry == old(self).registry,
            info.sender@ != old(self).config.node_id@ ==> {
                &&& r == Some(!old(self).registry.nodes_view().contains_key(info.sender@))
                &&& final(self).registry.events_view()
                    == reconciled(old(self).registry.events_view(), info.sender@, declared_events(info.services@))
                &&& final(self).registry.actions_view()
                    == reconciled(old(self).registry.actions_view(), info.sender@, declared_actions(info.services@))
                &&& final(self).registry.nodes_view().contains_key(info.sender@)
            },
    {
        if info.sender == self.config.node_id {
            return None;
        }
        Some(self.registry.add_or_update_node(info))
    }

    /// Drops node `node_name` from the registry; returns whether it was known.
    fn drop_node(&mut self, node_name: &String) -> (known: bool)
        requires
            old(self).wf(),
        ensures
            final(self).wf(),
            final(self).config == old(self).config,
            final(self).services == old(self).services,
            final(self).waiters == old(self).waiters,
            known == old(self).registry.nodes_view().contains_key(node_name@),
            final(self).registry.nodes_view() == old(self).registry.nodes_view().remove(node_name@),
            known ==> final(self).registry.events_view() == pruned(
                old(self).registry.events_view(),
                node_name@,
                old(self).registry.nodes_view()[node_name@].event_set(),
            ) && final(self).registry.actions_view() == pruned(
                old(self).registry.actions_view(),
                node_name@,
                old(self).registry.nodes_view()[node_name@].action_set(),
            ),
            !known ==> final(self).registry.events_view() == old(self).registry.events_view()
                && final(self).registry.actions_view() == old(self).registry.actions_view(),
            forall|e: Seq<char>| #[trigger] final(self).registry.events_view().contains_key(e)
                ==> !final(self).registry.events_view()[e].contains(node_name@),
            forall|a: Seq<char>| #[trigger] final(self).registry.actions_view().contains_key(a)
                ==> !final(self).registry.actions_view()[a].contains(node_name@),
    {
        let known = self.registry.remove_node(node_name);
        proof {
            if !known {
                assert(self.registry.nodes_view() =~= old(self).registry.nodes_view().remove(node_name@));
            }
        }
        known
    }

    /// A peer said goodbye: it is dropped. A DISCONNECT from this node's own
    /// id is ignored. Returns whether a known node was dropped.
    pub fn handle_disconnect_message(&mut self, disconnect: &incoming::DisconnectMessage) -> (r: bool)
        requires
            old(self).wf(),
        ensures
            final(self).wf(),
            final(self).config == old(self).config,
            final(self).services == old(self).services,
            final(self).waiters == old(self).waiters,
            disconnect.sender@ == old(self).config.node_id@ ==> !r && final(self).registry == old(self).registry,
            disconnect.sender@ != old(self).config.node_id@ ==> {
                &&& r == old(self).registry.nodes_view().contains_key(disconnect.sender@)
                &&& final(self).registry.nodes_view() == old(self).registry.nodes_view().remove(disconnect.sender@)
                &&& r ==> final(self).registry.events_view() == pruned(
                    old(self).registry.events_view(),
                    disconnect.sender@,
                    old(self).registry.nodes_view()[disconnect.sender@].event_set(),
                ) && final(self).registry.actions_view() == pruned(
                    old(self).registry.actions_view(),
                    disconnect.sender@,
                    old(self).registry.nodes_view()[disconnect.sender@].action_set(),
                )
                &&& !r ==> final(self).registry.events_view() == old(self).registry.events_view()
                    && final(self).registry.actions_view() == old(self).registry.actions_view()
                &&& forall|e: Seq<char>| #[trigger] final(self).registry.events_view().contains_key(e)
                    ==> !final(self).registry.events_view()[e].contains(disconnect.sender@)
                &&& forall|a: Seq<char>| #[trigger] final(self).registry.actions_view().contains_key(a)
                    ==> !final(self).registry.actions_view()[a].contains(disconnect.sender@)
            },
    {
        if disconnect.sender == self.config.node_id {
            return false;
        }
        self.drop_node(&disconnect.sender)
    }

    /// Node `node_name` missed its heartbeats: it is dropped. Returns
    /// whether it was known.
    pub fn missed_heartbeat(&mut self, node_name: &String) -> (r: bool)
        requires
            old(self).wf(),
        ensures
            final(self).wf(),
            final(self).config == old(self).config,
            final(self).services == old(self).services,
            final(self).waiters == old(self).waiters,
            r == old(self).registry.nodes_view().contains_key(node_name@),
            final(self).registry.nodes_view() == old(self).registry.nodes_view().remove(node_name@),
            r ==> final(self).registry.events_view() == pruned(
                old(self).registry.events_view(),
                node_name@,
                old(self).registry.nodes_view()[node_name@].event_set(),
            ) && final(self).registry.actions_view() == pruned(
                old(self).registry.actions_view(),
                node_name@,
                old(self).registry.nodes_view()[node_name@].action_set(),
            ),
            !r ==> final(self).registry.events_view() == old(self).registry.events_view()
                && final(self).registry.actions_view() == old(self).registry.actions_view(),
            forall|e: Seq<char>| #[trigger] final(self).registry.events_view().contains_key(e)
                ==> !final(self).registry.events_view()[e].contains(node_name@),
            forall|a: Seq<char>| #[trigger] final(self).registry.actions_view().contains_key(a)
                ==> !final(self).registry.actions_view()[a].contains(node_name@),
    {
        self.drop_node(node_name)
    }

    /// A peer's HEARTBEAT: its CPU figure is recorded. Returns whether the
    /// sender is a known peer, whose watcher is then to be reset.
    pub fn handle_heartbeat_message(&mut self, heartbeat: &incoming::HeartbeatMessage) -> (r: bool)
        requires
            old(self).wf(),
        ensures
            final(self).wf(),
            final(self).config == old(self).config,
            final(self).services == old(self).services,
            final(self).waiters == old(self).waiters,
            final(self).registry.events_view() == old(self).registry.events_view(),
            final(self).registry.actions_view() == old(self).registry.actions_view(),
            heartbeat.sender@ == old(self).config.node_id@ ==> !r && final(self).registry == old(self).registry,
            final(self).registry.nodes_view().dom() == old(self).registry.nodes_view().dom(),
            heartbeat.sender@ != old(self).config.node_id@ ==> {
                &&& r == old(self).registry.nodes_view().contains_key(heartbeat.sender@)
                &&& r ==> final(self).registry.nodes_view()[heartbeat.sender@].cpu == Some(heartbeat.cpu)
                    && final(self).registry.nodes_view()[heartbeat.sender@].event_set()
                        == old(self).registry.nodes_view()[heartbeat.sender@].event_set()
                    && final(self).registry.nodes_view()[heartbeat.sender@].action_set()
                        == old(self).registry.nodes_view()[heartbeat.sender@].action_set()
                    && same_identity(
                        final(self).registry.nodes_view()[heartbeat.sender@],
                        old(self).registry.nodes_view()[heartbeat.sender@],
                    )
            },
    {
        if heartbeat.sender == self.config.node_id {
            return false;
        }
        self.registry.update_node(heartbeat.sender.as_str(), heartbeat.cpu)
    }

    /// The local handler for an inbound EVENT.
    pub fn handle_incoming_event(&self, message: &incoming::EventMessage) -> (r: Result<usize, Error>)
        requires
            self.wf(),
        ensures
            match event_handler(self.services@, message.event@) {
                None => r matches Err(Error::EventNotFound(n)) && n@ == message.event@,
                Some(None) => r matches Err(Error::EventCallbackNotFound(n)) && n@ == message.event@,
                Some(Some(h)) => r == Ok::<usize, Error>(h),
            },
    {
        match find_event(&self.services, &message.event) {
            None => Err(Error::EventNotFound(message.event.clone())),
            Some(None) => Err(Error::EventCallbackNotFound(message.event.clone())),
            Some(Some(h)) => Ok(h),
        }
    }

    /// The local handler for an inbound REQUEST.
    pub fn handle_incoming_request(&self, message: &incoming::RequestMessage) -> (r: Result<usize, Error>)
        requires
            self.wf(),
        ensures
            match action_handler(self.services@, message.action@) {
                None => r matches Err(Error::ActionNotFound(n)) && n@ == message.action@,
                Some(None) => r matches Err(Error::ActionCallbackNotFound(n)) && n@ == message.action@,
                Some(Some(h)) => r == Ok::<usize, Error>(h),
            },
    {
        match find_action(&self.services, &message.action) {
            None => Err(Error::ActionNotFound(message.action.clone())),
            Some(None) => Err(Error::ActionCallbackNotFound(message.action.clone())),
            Some(Some(h)) => Ok(h),
        }
    }

    /// An inbound RESPONSE. For a waiting request its waiter leaves and the
    /// data is to be delivered; the result says whether the sender is the
    /// node the request went to. A RESPONSE with an unknown id is dropped
    /// silently and changes nothing.
    pub fn handle_response(&mut self, response: &incoming::ResponseMessage) -> (r: Option<bool>)
        ensures
            final(self).config == old(self).config,
            final(self).services == old(self).services,
            final(self).registry == old(self).registry,
            match r {
                Some(same) => old(self).waiters.view().contains_key(response.id@)
                    && same == (old(self).waiters.view()[response.id@] == response.sender@),
                None => !old(self).waiters.view().contains_key(response.id@),
            },
            final(self).waiters.view() == settled(old(self).waiters.view(), response.id@),
            !old(self).waiters.view().contains_key(response.id@) ==> final(self).waiters.view() == old(self).waiters.view(),
    {
        let r = self.waiters.handle_message(response.id.as_str(), response.sender.as_str());
        proof {
            if r is None {
                assert(settled(old(self).waiters.view(), response.id@) =~= old(self).waiters.view());
            }
        }
        r
    }

    /// The timeout of call `request_id` expired. Returns whether it was
    /// still waiting; its caller then sees a timeout.
    pub fn timeout_reached(&mut self, request_id: &str) -> (r: bool)
        ensures
            final(self).config == old(self).config,
            final(self).services == old(self).services,
            final(self).registry == old(self).registry,
            r == old(self).waiters.view().contains_key(request_id@),
            final(self).waiters.view() == settled(old(self).waiters.view(), request_id@),
    {
        self.waiters.timeout_reached(request_id)
    }

    /// This node's INFO, for the INFO broadcast subject.
    pub fn broadcast_info(&self, client: Client) -> (r: (String, InfoMessage))
        ensures
            r.0@ == subject_of(Channel::Info, mol_of(self.config.namespace@), self.config.node_id@),
            r.1.sender@ == self.config.node_id@,
            r.1.ver@ == protocol_version(),
            r.1.instance_id@ == self.config.instance_id@,
            r.1.ip_list@ == self.config.ip_list@,
            r.1.hostname@ == self.config.hostname@,
            r.1.client == client,
    {
        (Channel::Info.channel_to_string(&self.config), InfoMessage::new(&self.config, client))
    }

    /// The answer to a peer's DISCOVER: this node's INFO on that peer's INFO subject.
    pub fn publish_info_to_channel(&self, discover: &incoming::DiscoverMessage, client: Client) -> (r: (String, InfoMessage))
        ensures
            r.0@ == peer_subject(Channel::InfoTargeted, self.config.namespace@, discover.sender@),
            r.1.sender@ == self.config.node_id@,
            r.1.ver@ == protocol_version(),
            r.1.instance_id@ == self.config.instance_id@,
            r.1.ip_list@ == self.config.ip_list@,
            r.1.hostname@ == self.config.hostname@,
            r.1.client == client,
    {
        (
            Channel::InfoTargeted.external_channel(&self.config, discover.sender.as_str()),
            InfoMessage::new(&self.config, client),
        )
    }

    /// The DISCOVER sent at start-up, after this node's INFO.
    pub fn broadcast_discover(&self) -> (r: (String, DiscoverMessage))
        ensures
            r.0@ == subject_of(Channel::Discover, mol_of(self.config.namespace@), self.config.node_id@),
            r.1.sender@ == self.config.node_id@,
            r.1.ver@ == protocol_version(),
    {
        (Channel::Discover.channel_to_string(&self.config), DiscoverMessage::new(self.config.node_id.as_str()))
    }

    /// The DISCONNECT sent when this node stops.
    pub fn send_disconnect(&self) -> (r: (String, DisconnectMessage))
        ensures
            r.0@ == subject_of(Channel::Disconnect, mol_of(self.config.namespace@), self.config.node_id@),
            r.1.sender@ == self.config.node_id@,
            r.1.ver@ == protocol_version(),
    {
        (Channel::Disconnect.channel_to_string(&self.config), DisconnectMessage::new(self.config.node_id.as_str()))
    }

    /// This node's periodic HEARTBEAT with its CPU usage, in hundredths of a percent.
    pub fn send_heartbeat(&self, cpu: u32) -> (r: (String, HeartbeatMessage))
        ensures
            r.0@ == subject_of(Channel::Heartbeat, mol_of(self.config.namespace@), self.config.node_id@),
            r.1.sender@ == self.config.node_id@,
            r.1.cpu == cpu,
    {
        (Channel::Heartbeat.channel_to_string(&self.config), HeartbeatMessage::new(self.config.node_id.as_str(), cpu))
    }

    /// The answer to a PING that arrived at `arrived`: a PONG on the
    /// sender's PONG subject.
    pub fn handle_ping(&self, ping: incoming::PingMessage, arrived: i64) -> (r: (String, PongMessage))
        ensures
            r.0@ == peer_subject(Channel::Pong, self.config.namespace@, ping.sender@),
            r.1.sender@ == self.config.node_id@,
            r.1.id == ping.id,
            r.1.time == ping.time,
            r.1.arrived == arrived,
    {
        let subject = Channel::Pong.external_channel(&self.config, ping.sender.as_str());
        (subject, PongMessage::from_ping(ping, self.config.node_id.as_str(), arrived))
    }
}

} // verus!
