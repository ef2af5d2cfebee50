//! Services with their events and actions, as declared locally and as
//! announced by peers.
use vstd::prelude::*;
use core::marker::PhantomData;
use crate::channels::messages::incoming::{EventMessage, RequestMessage};

verus! {

/// serde_json's `Value`: JSON that the broker carries (params, data, meta)
/// without reading it.
#[verifier::external_type_specification]
#[verifier::external_body]
pub struct ExValue(serde_json::Value);

/// A named fire-and-forget message a service handles.
///
/// `callback` is the index of the local handler in the embedding program's
/// table of handlers; peers' events carry none.
pub struct Event {
    pub name: String,
    pub params: Option<serde_json::Value>,
    pub callback: Option<usize>,
}

/// A named request/response operation a service handles.
pub struct Action {
    pub name: String,
    pub params: Option<serde_json::Value>,
    pub callback: Option<usize>,
}

/// Builder for [Event].
pub struct EventBuilder {
    name: String,
    params: Option<serde_json::Value>,
    callback: Option<usize>,
}

impl EventBuilder {
    pub closed spec fn spec_name(&self) -> Seq<char> {
        self.name@
    }

    pub closed spec fn spec_params(&self) -> Option<serde_json::Value> {
        self.params
    }

    pub closed spec fn spec_callback(&self) -> Option<usize> {
        self.callback
    }

    pub fn new(name: &str) -> (r: Self)
        ensures
            r.spec_name() == name@,
            r.spec_params() is None,
            r.spec_callback() is None,
    {
        EventBuilder { name: name.to_owned(), params: None, callback: None }
    }

    pub fn add_params(self, params: serde_json::Value) -> (r: Self)
        ensures
            r.spec_name() == self.spec_name(),
            r.spec_params() == Some(params),
            r.spec_callback() == self.spec_callback(),
    {
        EventBuilder { params: Some(params), ..self }
    }

    /// Binds the handler at index `handler` of the embedding program's table.
    pub fn add_callback(self, handler: usize) -> (r: Self)
        ensures
            r.spec_name() == self.spec_name(),
            r.spec_params() == self.spec_params(),
            r.spec_callback() == Some(handler),
    {
        EventBuilder { callback: Some(handler), ..self }
    }

    pub fn build(self) -> (r: Event)
        ensures
            r.name@ == self.spec_name(),
            r.params == self.spec_params(),
            r.callback == self.spec_callback(),
    {
        Event { name: self.name, params: self.params, callback: self.callback }
    }
}

/// Builder for [Action].
pub struct ActionBuilder {
    name: String,
    params: Option<serde_json::Value>,
    callback: Option<usize>,
}

impl ActionBuilder {
    pub closed spec fn spec_name(&self) -> Seq<char> {
        self.name@
    }

    pub closed spec fn spec_params(&self) -> Option<serde_json::Value> {
        self.params
    }

    pub closed spec fn spec_callback(&self) -> Option<usize> {
        self.callback
    }

    pub fn new(name: &str) -> (r: Self)
        ensures
            r.spec_name() == name@,
            r.spec_params() is None,
            r.spec_callback() is None,
    {
        ActionBuilder { name: name.to_owned(), params: None, callback: None }
    }

    pub fn add_params(self, params: serde_json::Value) -> (r: Self)
        ensures
            r.spec_name() == self.spec_name(),
            r.spec_params() == Some(params),
            r.spec_callback() == self.spec_callback(),
    {
        ActionBuilder { params: Some(params), ..self }
    }

    /// Binds the handler at index `handler` of the embedding program's table.
    pub fn add_callback(self, handler: usize) -> (r: Self)
        ensures
            r.spec_name() == self.spec_name(),
            r.spec_params() == self.spec_params(),
            r.spec_callback() == Some(handler),
    {
        ActionBuilder { callback: Some(handler), ..self }
    }

    pub fn build(self) -> (r: Action)
        ensures
            r.name@ == self.spec_name(),
            r.params == self.spec_params(),
            r.callback == self.spec_callback(),
    {
        Action { name: self.name, params: self.params, callback: self.callback }
    }
}

/// A named group of events and actions; names are unique within each group.
pub struct Service {
    pub name: String,
    pub version: Option<i32>,
    pub settings: Vec<(String, String)>,
    pub metadata: Option<serde_json::Value>,
    pub actions: Vec<Action>,
    pub events: Vec<Event>,
}

/// The names of a list of events, in order.
pub open spec fn event_names(v: Seq<Event>) -> Seq<Seq<char>> {
    v.map_values(|e: Event| e.name@)
}

/// The names of a list of actions, in order.
pub open spec fn action_names(v: Seq<Action>) -> Seq<Seq<char>> {
    v.map_values(|a: Action| a.name@)
}

impl Service {
    /// Event names and action names are each unique.
    pub open spec fn wf(&self) -> bool {
        event_names(self.events@).no_duplicates() && action_names(self.actions@).no_duplicates()
    }

    /// Whether event names and action names are each unique.
    pub fn is_wf(&self) -> (r: bool)
        ensures
            r == self.wf(),
    {
        let mut i: usize = 0;
        while i < self.events.len()
            invariant
                i <= self.events@.len(),
                forall|a: int, b: int| 0 <= a < i && 0 <= b < self.events@.len() && a != b
                    ==> self.events@[a].name@ != self.events@[b].name@,
            decreases self.events@.len() - i,
        {
            let mut j: usize = 0;
            while j < self.events.len()
                invariant
                    i < self.events@.len(),
                    j <= self.events@.len(),
                    forall|a: int, b: int| 0 <= a < i && 0 <= b < self.events@.len() && a != b
                        ==> self.events@[a].name@ != self.events@[b].name@,
                    forall|b: int| 0 <= b < j && b != i ==> self.events@[i as int].name@ != self.events@[b].name@,
                decreases self.events@.len() - j,
            {
                if j != i && self.events[i].name == self.events[j].name {
                    proof {
                        assert(event_names(self.events@)[i as int] == event_names(self.events@)[j as int]);
                    }
                    return false;
                }
                j = j + 1;
            }
            i = i + 1;
        }
        let mut i: usize = 0;
        while i < self.actions.len()
            invariant
                i <= self.actions@.len(),
                event_names(self.events@).no_duplicates(),
                forall|a: int, b: int| 0 <= a < i && 0 <= b < self.actions@.len() && a != b
                    ==> self.actions@[a].name@ != self.actions@[b].name@,
            decreases self.actions@.len() - i,
        {
            let mut j: usize = 0;
            while j < self.actions.len()
                invariant
                    i < self.actions@.len(),
                    j <= self.actions@.len(),
                    forall|a: int, b: int| 0 <= a < i && 0 <= b < self.actions@.len() && a != b
                        ==> self.actions@[a].name@ != self.actions@[b].name@,
                    forall|b: int| 0 <= b < j && b != i ==> self.actions@[i as int].name@ != self.actions@[b].name@,
                decreases self.actions@.len() - j,
            {
                if j != i && self.actions[i].name == self.actions[j].name {
                    proof {
                        assert(action_names(self.actions@)[i as int] == action_names(self.actions@)[j as int]);
                    }
                    return false;
                }
                j = j + 1;
            }
            i = i + 1;
        }
        true
    }

    pub fn new(name: &str) -> (r: Self)
        ensures
            r.name@ == name@,
            r.version is None,
            r.settings@.len() == 0,
            r.metadata is None,
            r.actions@.len() == 0,
            r.events@.len() == 0,
            r.wf(),
    {
        let r = Service {
            name: name.to_owned(),
            version: None,
            settings: Vec::new(),
            metadata: None,
            actions: Vec::new(),
            events: Vec::new(),
        };
        proof {
            assert(event_names(r.events@) =~= Seq::<Seq<char>>::empty());
            assert(action_names(r.actions@) =~= Seq::<Seq<char>>::empty());
        }
        r
    }

    pub fn set_version(self, version: i32) -> (r: Self)
        ensures
            r == (Service { version: Some(version), ..self }),
    {
        Service { version: Some(version), ..self }
    }

    /// Adds `action`, replacing an action of the same name in place.
    pub fn add_action(self, action: Action) -> (r: Self)
        requires
            self.wf(),
        ensures
            r.wf(),
            r.name == self.name,
            r.version == self.version,
            r.events == self.events,
            action_names(self.actions@).contains(action.name@) ==> r.actions@ == self.actions@.update(
                action_names(self.actions@).index_of(action.name@),
                action,
            ),
            !action_names(self.actions@).contains(action.name@) ==> r.actions@ == self.actions@.push(action),
    {
        let mut s = self;
        let mut i: usize = 0;
        while i < s.actions.len()
            invariant
                i <= s.actions@.len(),
                s == self,
                self.wf(),
                forall|j: int| 0 <= j < i ==> s.actions@[j].name@ != action.name@,
            decreases s.actions@.len() - i,
        {
            if s.actions[i].name == action.name {
                proof {
                    let ns = action_names(self.actions@);
                    assert(ns[i as int] == action.name@);
                    assert(ns.contains(action.name@));
                    let k = ns.index_of(action.name@);
                    assert(ns[k] == action.name@);
                    assert(k == i as int);
                }
                let ghost before = s.actions@;
                s.actions.set(i, action);
                proof {
                    let ns = action_names(before);
                    let ns2 = action_names(s.actions@);
                    assert(s.actions@ == before.update(i as int, action));
                    assert forall|j: int| 0 <= j < ns.len() implies ns2[j] == ns[j] by {
                        if j == i as int {
                            assert(ns2[j] == action.name@);
                        }
                    }
                    assert(ns2 =~= ns);
                }
                return s;
            }
            i = i + 1;
        }
        let ghost before = s.actions@;
        s.actions.push(action);
        proof {
            let ns = action_names(before);
            let ns2 = action_names(s.actions@);
            assert(ns2 =~= ns.push(action.name@));
            assert(!ns.contains(action.name@)) by {
                if ns.contains(action.name@) {
                    let k = choose|k: int| 0 <= k < ns.len() && ns[k] == action.name@;
                    assert(before[k].name@ == action.name@);
                }
            }
        }
        s
    }

    /// Adds `event`, replacing an event of the same name in place.
    pub fn add_event(self, event: Event) -> (r: Self)
        requires
            self.wf(),
        ensures
            r.wf(),
            r.name == self.name,
            r.version == self.version,
            r.actions == self.actions,
            event_names(self.events@).contains(event.name@) ==> r.events@ == self.events@.update(
                event_names(self.events@).index_of(event.name@),
                event,
            ),
            !event_names(self.events@).contains(event.name@) ==> r.events@ == self.events@.push(event),
    {
        let mut s = self;
        let mut i: usize = 0;
        while i < s.events.len()
            invariant
                i <= s.events@.len(),
                s == self,
                self.wf(),
                forall|j: int| 0 <= j < i ==> s.events@[j].name@ != event.name@,
            decreases s.events@.len() - i,
        {
            if s.events[i].name == event.name {
                proof {
                    let ns = event_names(self.events@);
                    assert(ns[i as int] == event.name@);
                    assert(ns.contains(event.name@));
                    let k = ns.index_of(event.name@);
                    assert(ns[k] == event.name@);
                    assert(k == i as int);
                }
                let ghost before = s.events@;
                s.events.set(i, event);
                proof {
                    let ns = event_names(before);
                    let ns2 = event_names(s.events@);
                    assert(s.events@ == before.update(i as int, event));
                    assert forall|j: int| 0 <= j < ns.len() implies ns2[j] == ns[j] by {
                        if j == i as int {
                            assert(ns2[j] == event.name@);
                        }
                    }
                    assert(ns2 =~= ns);
                }
                return s;
            }
            i = i + 1;
        }
        let ghost before = s.events@;
        s.events.push(event);
        proof {
            let ns = event_names(before);
            let ns2 = event_names(s.events@);
            assert(ns2 =~= ns.push(event.name@));
            assert(!ns.contains(event.name@)) by {
                if ns.contains(event.name@) {
                    let k = choose|k: int| 0 <= k < ns.len() && ns[k] == event.name@;
                    assert(before[k].name@ == event.name@);
                }
            }
        }
        s
    }
}

/// Whether a received event was emitted to one node or broadcast to all.
#[derive(Debug, Clone, Copy, PartialEq, Eq)]
pub enum EventType {
    Emit,
    Broadcast,
}

impl EventType {
    /// Reads the envelope's optional `broadcast` flag; an absent flag means emit.
    pub fn from_broadcast_flag(flag: Option<bool>) -> (r: Self)
        ensures
            r == (if flag == Some(true) { EventType::Broadcast } else { EventType::Emit }),
    {
        match flag {
            Some(true) => EventType::Broadcast,
            _ => EventType::Emit,
        }
    }
}


/// What a callback receives: the envelope's data and a handle `B` on the
/// broker, through which the callback can emit, broadcast, call or reply.
/// `T` is [Event] or [Action].
pub struct Context<T, B> {
    pub phantom: PhantomData<T>,

    pub id: String,
    pub broker: B,
    pub node_id: String,
    pub action: Option<String>,

    pub event_name: Option<String>,
    pub event_type: Option<EventType>,
    pub event_groups: Vec<String>,

    pub caller: Option<String>,
    pub request_id: Option<String>,
    pub parent_id: Option<String>,

    pub params: serde_json::Value,
    pub meta: serde_json::Value,
    pub locals: Option<serde_json::Value>,

    pub level: i32,
}

impl<B> Context<Event, B> {
    /// The context of an inbound EVENT.
    pub fn new(message: EventMessage, broker: B) -> (r: Self)
        ensures
            r.id == message.id,
            r.broker == broker,
            r.node_id == message.sender,
            r.action is None,
            r.event_name == Some(message.event),
            r.event_type == Some(if message.broadcast == Some(true) { EventType::Broadcast } else { EventType::Emit }),
            r.event_groups@.len() == 0,
            r.caller == message.caller,
            r.request_id == message.request_id,
            r.parent_id == message.parent_id,
            r.params == message.data,
            r.meta == message.meta,
            r.locals is None,
            r.level == message.level,
    {
        let event_type = EventType::from_broadcast_flag(message.broadcast);
        Context {
            phantom: PhantomData,
            id: message.id,
            broker,
            node_id: message.sender,
            action: None,
            event_name: Some(message.event),
            event_type: Some(event_type),
            event_groups: Vec::new(),
            caller: message.caller,
            request_id: message.request_id,
            parent_id: message.parent_id,
            params: message.data,
            meta: message.meta,
            locals: None,
            level: message.level,
        }
    }
}

impl<B> Context<Action, B> {
    /// The context of an inbound REQUEST; its id is the request id, which a
    /// reply answers.
    pub fn new(message: RequestMessage, broker: B) -> (r: Self)
        ensures
            r.id == message.request_id,
            r.broker == broker,
            r.node_id == message.sender,
            r.action == Some(message.action),
            r.event_name is None,
            r.event_type is None,
            r.event_groups@.len() == 0,
            r.caller == message.caller,
            r.request_id == Some(message.request_id),
            r.parent_id == message.parent_id,
            r.params == message.params,
            r.meta == message.meta,
            r.locals is None,
            r.level == message.level,
    {
        let id = message.request_id.clone();
        Context {
            phantom: PhantomData,
            id,
            broker,
            node_id: message.sender,
            action: Some(message.action),
            event_name: None,
            event_type: None,
            event_groups: Vec::new(),
            caller: message.caller,
            request_id: Some(message.request_id),
            parent_id: message.parent_id,
            params: message.params,
            meta: message.meta,
            locals: None,
            level: message.level,
        }
    }
}

} // verus!
