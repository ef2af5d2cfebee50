//! Peer nodes and, per event and per action, the rotation of nodes that host it.
use vstd::prelude::*;
use vstd::hash_map::StringHashMap;
use crate::channels::messages::incoming::{Client, InfoMessage};
use crate::data_structures::{
    QueueSet, inserted, rotated, lemma_inserted_idempotent, lemma_remove_value, lemma_rotated,
};
use crate::service::{Service, action_names, event_names};
use crate::util::copy_strings;

verus! {

/// The characters of each string, in order.
pub open spec fn names(v: Seq<String>) -> Seq<Seq<char>> {
    v.map_values(|s: String| s@)
}

/// A peer node as last announced.
pub struct Node {
    pub name: String,
    /// CPU usage in hundredths of a percent, from the last HEARTBEAT.
    pub cpu: Option<u32>,
    pub ip_list: Vec<String>,
    pub hostname: String,
    pub client: Client,
    pub instance_id: String,
    pub events: Vec<String>,
    pub actions: Vec<String>,
}

impl Node {
    pub open spec fn event_set(&self) -> Set<Seq<char>> {
        names(self.events@).to_set()
    }

    pub open spec fn action_set(&self) -> Set<Seq<char>> {
        names(self.actions@).to_set()
    }
}

/// The events (`actions == false`) or actions a node hosts.
pub open spec fn members(n: Node, actions: bool) -> Set<Seq<char>> {
    if actions {
        n.action_set()
    } else {
        n.event_set()
    }
}

/// Everything but the event and action sets is equal.
pub open spec fn same_record(a: Node, b: Node) -> bool {
    &&& a.name@ == b.name@
    &&& a.cpu == b.cpu
    &&& names(a.ip_list@) == names(b.ip_list@)
    &&& a.hostname@ == b.hostname@
    &&& a.client == b.client
    &&& a.instance_id@ == b.instance_id@
}

/// The same node as announced: name, addresses, host, client and instance.
pub open spec fn same_identity(a: Node, b: Node) -> bool {
    &&& a.name@ == b.name@
    &&& names(a.ip_list@) == names(b.ip_list@)
    &&& a.hostname@ == b.hostname@
    &&& a.client == b.client
    &&& a.instance_id@ == b.instance_id@
}

/// The record of a node first seen in `info`, before its events and actions.
pub open spec fn fresh_record(n: Node, info: InfoMessage) -> bool {
    &&& n.name@ == info.sender@
    &&& n.cpu is None
    &&& names(n.ip_list@) == names(info.ip_list@)
    &&& n.hostname@ == info.hostname@
    &&& n.client == info.client
    &&& n.instance_id@ == info.instance_id@
}

/// Names of the events declared by a list of services.
pub open spec fn declared_events(services: Seq<Service>) -> Set<Seq<char>> {
    Set::new(|e: Seq<char>| exists|i: int| 0 <= i < services.len() && #[trigger] event_names(services[i].events@).contains(e))
}

/// Names of the actions declared by a list of services.
pub open spec fn declared_actions(services: Seq<Service>) -> Set<Seq<char>> {
    Set::new(|a: Seq<char>| exists|i: int| 0 <= i < services.len() && #[trigger] action_names(services[i].actions@).contains(a))
}

/// The routing index after `node` declared the names in `declared`: each
/// such name's rotation gains `node` at the back unless it holds it already.
pub open spec fn reconciled(
    index: Map<Seq<char>, Seq<Seq<char>>>,
    node: Seq<char>,
    declared: Set<Seq<char>>,
) -> Map<Seq<char>, Seq<Seq<char>>> {
    Map::new(
        |e: Seq<char>| index.contains_key(e) || declared.contains(e),
        |e: Seq<char>|
            if declared.contains(e) {
                inserted(if index.contains_key(e) { index[e] } else { Seq::empty() }, node)
            } else {
                index[e]
            },
    )
}

/// The routing index after `node` left, for the names in `hosted`: it leaves
/// each of their rotations, and a rotation left empty is dropped.
pub open spec fn pruned(
    index: Map<Seq<char>, Seq<Seq<char>>>,
    node: Seq<char>,
    hosted: Set<Seq<char>>,
) -> Map<Seq<char>, Seq<Seq<char>>> {
    Map::new(
        |e: Seq<char>| index.contains_key(e) && !(hosted.contains(e) && index[e].remove_value(node).len() == 0),
        |e: Seq<char>| if hosted.contains(e) { index[e].remove_value(node) } else { index[e] },
    )
}

/// A routing index agrees with the node records: a node is in the rotation of
/// a name exactly when its record lists that name, and no rotation is empty
/// or holds a node twice.
pub open spec fn index_wf(
    index: Map<Seq<char>, Seq<Seq<char>>>,
    nodes: Map<Seq<char>, Node>,
    actions: bool,
) -> bool {
    &&& forall|n: Seq<char>, e: Seq<char>|
        nodes.contains_key(n) && #[trigger] members(nodes[n], actions).contains(e)
            ==> index.contains_key(e) && index[e].contains(n)
    &&& forall|e: Seq<char>, n: Seq<char>|
        index.contains_key(e) && #[trigger] index[e].contains(n)
            ==> nodes.contains_key(n) && members(nodes[n], actions).contains(e)
    &&& forall|e: Seq<char>| #[trigger] index.contains_key(e) ==> index[e].len() > 0 && index[e].no_duplicates()
}

/// Each record sits under its own name and lists no name twice.
pub open spec fn records_wf(nodes: Map<Seq<char>, Node>) -> bool {
    forall|n: Seq<char>| #[trigger] nodes.contains_key(n) ==> {
        &&& nodes[n].name@ == n
        &&& names(nodes[n].events@).no_duplicates()
        &&& names(nodes[n].actions@).no_duplicates()
    }
}

pub open spec fn queue_views(m: Map<Seq<char>, QueueSet>) -> Map<Seq<char>, Seq<Seq<char>>> {
    m.map_values(|q: QueueSet| q@)
}

proof fn lemma_reconcile_index(
    index: Map<Seq<char>, Seq<Seq<char>>>,
    nodes: Map<Seq<char>, Node>,
    nodes2: Map<Seq<char>, Node>,
    s: Seq<char>,
    declared: Set<Seq<char>>,
    actions: bool,
)
    requires
        index_wf(index, nodes, actions),
        nodes2.dom() == nodes.dom().insert(s),
        forall|n: Seq<char>| n != s && nodes.contains_key(n) ==> nodes2[n] == nodes[n],
        members(nodes2[s], actions) == (if nodes.contains_key(s) { members(nodes[s], actions) } else { Set::empty() }).union(declared),
    ensures
        index_wf(reconciled(index, s, declared), nodes2, actions),
{
    let r = reconciled(index, s, declared);
    assert forall|n: Seq<char>, e: Seq<char>|
        nodes2.contains_key(n) && #[trigger] members(nodes2[n], actions).contains(e)
        implies r.contains_key(e) && r[e].contains(n) by {
        if declared.contains(e) {
            let base = if index.contains_key(e) { index[e] } else { Seq::empty() };
            lemma_inserted_idempotent(base, s);
            if n != s {
                assert(members(nodes[n], actions).contains(e));
            }
        } else {
            if n != s {
                assert(members(nodes[n], actions).contains(e));
            } else {
                assert(members(nodes[s], actions).contains(e));
            }
        }
    }
    assert forall|e: Seq<char>, n: Seq<char>|
        r.contains_key(e) && #[trigger] r[e].contains(n)
        implies nodes2.contains_key(n) && members(nodes2[n], actions).contains(e) by {
        if declared.contains(e) {
            let base = if index.contains_key(e) { index[e] } else { Seq::empty() };
            lemma_inserted_idempotent(base, s);
            if n != s {
                assert(base.contains(n));
                assert(index[e].contains(n));
            }
        } else {
            assert(index[e].contains(n));
        }
    }
    assert forall|e: Seq<char>| #[trigger] r.contains_key(e) implies r[e].len() > 0 && r[e].no_duplicates() by {
        if declared.contains(e) {
            let base = if index.contains_key(e) { index[e] } else { Seq::empty() };
            lemma_inserted_idempotent(base, s);
        }
    }
}

proof fn lemma_prune_index(
    index: Map<Seq<char>, Seq<Seq<char>>>,
    nodes: Map<Seq<char>, Node>,
    s: Seq<char>,
    actions: bool,
)
    requires
        index_wf(index, nodes, actions),
        nodes.contains_key(s),
    ensures
        index_wf(pruned(index, s, members(nodes[s], actions)), nodes.remove(s), actions),
        forall|e: Seq<char>| #[trigger] pruned(index, s, members(nodes[s], actions)).contains_key(e)
            ==> !pruned(index, s, members(nodes[s], actions))[e].contains(s),
{
    let hosted = members(nodes[s], actions);
    let r = pruned(index, s, hosted);
    let nodes2 = nodes.remove(s);
    assert forall|e: Seq<char>| #[trigger] r.contains_key(e) implies !r[e].contains(s) && r[e].len() > 0 && r[e].no_duplicates() by {
        lemma_remove_value(index[e], s);
        if !hosted.contains(e) && index[e].contains(s) {
            assert(members(nodes[s], actions).contains(e));
        }
    }
    assert forall|n: Seq<char>, e: Seq<char>|
        nodes2.contains_key(n) && #[trigger] members(nodes2[n], actions).contains(e)
        implies r.contains_key(e) && r[e].contains(n) by {
        assert(members(nodes[n], actions).contains(e));
        lemma_remove_value(index[e], s);
        assert(index[e].contains(n));
    }
    assert forall|e: Seq<char>, n: Seq<char>|
        r.contains_key(e) && #[trigger] r[e].contains(n)
        implies nodes2.contains_key(n) && members(nodes2[n], actions).contains(e) by {
        lemma_remove_value(index[e], s);
        assert(index[e].contains(n));
    }
}

/// `index` after adding `node` to the rotation of `name`.
fn index_add(index: &mut StringHashMap<QueueSet>, name: &String, node: &String)
    requires
        forall|k: Seq<char>| #[trigger] old(index)@.contains_key(k) ==> old(index)@[k].wf(),
    ensures
        forall|k: Seq<char>| #[trigger] final(index)@.contains_key(k) ==> final(index)@[k].wf(),
        queue_views(final(index)@) == queue_views(old(index)@).insert(
            name@,
            inserted(
                if old(index)@.contains_key(name@) { old(index)@[name@]@ } else { Seq::empty() },
                node@,
            ),
        ),
{
    let mut q = match index.get(name.as_str()) {
        Some(q) => q.duplicate(),
        None => QueueSet::new(),
    };
    q.insert(node.clone());
    index.insert(name.clone(), q);
    proof {
        assert(queue_views(index@) =~= queue_views(old(index)@).insert(
            name@,
            inserted(
                if old(index)@.contains_key(name@) { old(index)@[name@]@ } else { Seq::empty() },
                node@,
            ),
        ));
    }
}

/// `index` after taking `node` out of the rotation of `name`, dropping the
/// rotation when it is left empty.
fn index_drop(index: &mut StringHashMap<QueueSet>, name: &String, node: &String)
    requires
        forall|k: Seq<char>| #[trigger] old(index)@.contains_key(k) ==> old(index)@[k].wf(),
    ensures
        forall|k: Seq<char>| #[trigger] final(index)@.contains_key(k) ==> final(index)@[k].wf(),
        !old(index)@.contains_key(name@) ==> queue_views(final(index)@) == queue_views(old(index)@),
        old(index)@.contains_key(name@) && old(index)@[name@]@.remove_value(node@).len() == 0
            ==> queue_views(final(index)@) == queue_views(old(index)@).remove(name@),
        old(index)@.contains_key(name@) && old(index)@[name@]@.remove_value(node@).len() > 0
            ==> queue_views(final(index)@) == queue_views(old(index)@).insert(
                name@,
                old(index)@[name@]@.remove_value(node@),
            ),
{
    let copy = match index.get(name.as_str()) {
        Some(q) => Some(q.duplicate()),
        None => None,
    };
    match copy {
        Some(mut q) => {
            q.remove(node);
            if q.len() == 0 {
                index.remove(name.as_str());
                proof {
                    assert(queue_views(index@) =~= queue_views(old(index)@).remove(name@));
                }
            } else {
                index.insert(name.clone(), q);
                proof {
                    assert(queue_views(index@) =~= queue_views(old(index)@).insert(
                        name@,
                        old(index)@[name@]@.remove_value(node@),
                    ));
                }
            }
        },
        None => {},
    }
}

} // verus!

verus! {

proof fn lemma_prefix_set_step(s: Seq<Seq<char>>, k: int)
    requires
        0 <= k < s.len(),
    ensures
        s.subrange(0, k + 1).to_set() == s.subrange(0, k).to_set().insert(s[k]),
{
    let a = s.subrange(0, k + 1);
    let b = s.subrange(0, k);
    assert forall|x: Seq<char>| a.contains(x) <==> b.contains(x) || x == s[k] by {
        if a.contains(x) {
            let w = choose|w: int| 0 <= w < a.len() && a[w] == x;
            if w < k {
                assert(b[w] == x);
            }
        }
        if b.contains(x) {
            let w = choose|w: int| 0 <= w < b.len() && b[w] == x;
            assert(a[w] == x);
        }
        if x == s[k] {
            assert(a[k] == x);
        }
    }
    assert(a.to_set() =~= b.to_set().insert(s[k]));
}

proof fn lemma_push_set(s: Seq<Seq<char>>, y: Seq<char>)
    ensures
        s.push(y).to_set() == s.to_set().insert(y),
        s.no_duplicates() && !s.contains(y) ==> s.push(y).no_duplicates(),
{
    let a = s.push(y);
    assert forall|x: Seq<char>| a.contains(x) <==> s.contains(x) || x == y by {
        if a.contains(x) {
            let w = choose|w: int| 0 <= w < a.len() && a[w] == x;
            if w < s.len() {
                assert(s[w] == x);
            }
        }
        if s.contains(x) {
            let w = choose|w: int| 0 <= w < s.len() && s[w] == x;
            assert(a[w] == x);
        }
        if x == y {
            assert(a[s.len() as int] == x);
        }
    }
    assert(a.to_set() =~= s.to_set().insert(y));
    if s.no_duplicates() && !s.contains(y) {
        assert forall|j: int, k: int| 0 <= j < a.len() && 0 <= k < a.len() && j != k implies a[j] != a[k] by {
            if j == s.len() as int {
                assert(s[k] == a[k]);
            } else if k == s.len() as int {
                assert(s[j] == a[j]);
            }
        }
    }
}

proof fn lemma_reconciled_step(
    index: Map<Seq<char>, Seq<Seq<char>>>,
    node: Seq<char>,
    declared: Set<Seq<char>>,
    x: Seq<char>,
)
    ensures
        reconciled(index, node, declared.insert(x)) == reconciled(index, node, declared).insert(
            x,
            inserted(
                if reconciled(index, node, declared).contains_key(x) {
                    reconciled(index, node, declared)[x]
                } else {
                    Seq::empty()
                },
                node,
            ),
        ),
{
    let base = if index.contains_key(x) { index[x] } else { Seq::empty() };
    lemma_inserted_idempotent(base, node);
    assert(reconciled(index, node, declared.insert(x)) =~= reconciled(index, node, declared).insert(
        x,
        inserted(
            if reconciled(index, node, declared).contains_key(x) {
                reconciled(index, node, declared)[x]
            } else {
                Seq::empty()
            },
            node,
        ),
    ));
}

/// One name of a leaving node handled: its rotation loses the node and is
/// dropped when left empty.
pub open spec fn pruned_one(
    index: Map<Seq<char>, Seq<Seq<char>>>,
    node: Seq<char>,
    e: Seq<char>,
) -> Map<Seq<char>, Seq<Seq<char>>> {
    if !index.contains_key(e) {
        index
    } else if index[e].remove_value(node).len() == 0 {
        index.remove(e)
    } else {
        index.insert(e, index[e].remove_value(node))
    }
}

proof fn lemma_pruned_step(
    index: Map<Seq<char>, Seq<Seq<char>>>,
    node: Seq<char>,
    hosted: Set<Seq<char>>,
    e: Seq<char>,
)
    requires
        !hosted.contains(e),
    ensures
        pruned(index, node, hosted.insert(e)) == pruned_one(pruned(index, node, hosted), node, e),
{
    assert(pruned(index, node, hosted.insert(e)) =~= pruned_one(pruned(index, node, hosted), node, e));
}

proof fn lemma_rotate_index(
    index: Map<Seq<char>, Seq<Seq<char>>>,
    nodes: Map<Seq<char>, Node>,
    e: Seq<char>,
    actions: bool,
)
    requires
        index_wf(index, nodes, actions),
        index.contains_key(e),
    ensures
        index_wf(index.insert(e, rotated(index[e])), nodes, actions),
{
    lemma_rotated(index[e]);
    let r = index.insert(e, rotated(index[e]));
    assert forall|n: Seq<char>, x: Seq<char>|
        nodes.contains_key(n) && #[trigger] members(nodes[n], actions).contains(x)
        implies r.contains_key(x) && r[x].contains(n) by {
        assert(index[x].contains(n));
    }
    assert forall|x: Seq<char>, n: Seq<char>|
        r.contains_key(x) && #[trigger] r[x].contains(n)
        implies nodes.contains_key(n) && members(nodes[n], actions).contains(x) by {
        assert(index[x].contains(n));
    }
}

fn contains_string(v: &Vec<String>, s: &String) -> (r: bool)
    ensures
        r == names(v@).contains(s@),
{
    let mut i: usize = 0;
    while i < v.len()
        invariant
            i <= v@.len(),
            forall|j: int| 0 <= j < i ==> v@[j]@ != s@,
        decreases v@.len() - i,
    {
        if v[i] == *s {
            proof {
                assert(names(v@)[i as int] == s@);
            }
            return true;
        }
        i = i + 1;
    }
    proof {
        if names(v@).contains(s@) {
            let w = choose|w: int| 0 <= w < names(v@).len() && names(v@)[w] == s@;
            assert(v@[w]@ == s@);
        }
    }
    false
}

/// The names of the events declared by `services`, each once.
fn declared_event_names(services: &Vec<Service>) -> (r: Vec<String>)
    ensures
        names(r@).no_duplicates(),
        names(r@).to_set() == declared_events(services@),
{
    let mut out: Vec<String> = Vec::new();
    let mut i: usize = 0;
    proof {
        assert(names(out@) =~= Seq::<Seq<char>>::empty());
    }
    while i < services.len()
        invariant
            i <= services@.len(),
            names(out@).no_duplicates(),
            forall|x: Seq<char>| #[trigger] names(out@).contains(x) <==> exists|k: int|
                0 <= k < i && #[trigger] event_names(services@[k].events@).contains(x),
        decreases services@.len() - i,
    {
        let evs = &services[i].events;
        let mut j: usize = 0;
        while j < evs.len()
            invariant
                i < services@.len(),
                evs == &services@[i as int].events,
                j <= evs@.len(),
                names(out@).no_duplicates(),
                forall|x: Seq<char>| #[trigger] names(out@).contains(x) <==> (exists|k: int|
                    0 <= k < i && #[trigger] event_names(services@[k].events@).contains(x))
                    || event_names(evs@).subrange(0, j as int).contains(x),
            decreases evs@.len() - j,
        {
            let name = &evs[j].name;
            let ghost before = names(out@);
            proof {
                assert forall|x: Seq<char>| event_names(evs@).subrange(0, j + 1).contains(x)
                    <==> event_names(evs@).subrange(0, j as int).contains(x) || x == name@ by {
                    lemma_prefix_set_step(event_names(evs@), j as int);
                    assert(event_names(evs@)[j as int] == name@);
                    assert(event_names(evs@).subrange(0, j + 1).to_set().contains(x)
                        == event_names(evs@).subrange(0, j + 1).contains(x));
                    assert(event_names(evs@).subrange(0, j as int).to_set().contains(x)
                        == event_names(evs@).subrange(0, j as int).contains(x));
                }
            }
            if !contains_string(&out, name) {
                out.push(name.clone());
                proof {
                    assert(names(out@) =~= before.push(name@));
                    lemma_push_set(before, name@);
                    assert forall|x: Seq<char>| names(out@).contains(x) <==> before.contains(x) || x == name@ by {
                        assert(names(out@).to_set().contains(x) == names(out@).contains(x));
                        assert(before.to_set().contains(x) == before.contains(x));
                    }
                }
            }
            proof {
                assert forall|x: Seq<char>| #[trigger] names(out@).contains(x) <==> (exists|k: int|
                    0 <= k < i && #[trigger] event_names(services@[k].events@).contains(x))
                    || event_names(evs@).subrange(0, j + 1).contains(x) by {
                    assert(names(out@).contains(x) <==> before.contains(x) || x == name@);
                    lemma_prefix_set_step(event_names(evs@), j as int);
                    assert(event_names(evs@)[j as int] == name@);
                    assert(event_names(evs@).subrange(0, j + 1).to_set().contains(x)
                        == event_names(evs@).subrange(0, j + 1).contains(x));
                    assert(event_names(evs@).subrange(0, j as int).to_set().contains(x)
                        == event_names(evs@).subrange(0, j as int).contains(x));
                }
            }
            j = j + 1;
        }
        proof {
            assert(event_names(evs@).subrange(0, evs@.len() as int) =~= event_names(evs@));
            assert forall|x: Seq<char>| #[trigger] names(out@).contains(x) <==> exists|k: int|
                0 <= k < i + 1 && #[trigger] event_names(services@[k].events@).contains(x) by {
                if names(out@).contains(x) && !(exists|k: int| 0 <= k < i && #[trigger] event_names(services@[k].events@).contains(x)) {
                    assert(event_names(services@[i as int].events@).contains(x));
                }
            }
        }
        i = i + 1;
    }
    proof {
        assert(names(out@).to_set() =~= declared_events(services@));
    }
    out
}

/// The names of the actions declared by `services`, each once.
fn declared_action_names(services: &Vec<Service>) -> (r: Vec<String>)
    ensures
        names(r@).no_duplicates(),
        names(r@).to_set() == declared_actions(services@),
{
    let mut out: Vec<String> = Vec::new();
    let mut i: usize = 0;
    proof {
        assert(names(out@) =~= Seq::<Seq<char>>::empty());
    }
    while i < services.len()
        invariant
            i <= services@.len(),
            names(out@).no_duplicates(),
            forall|x: Seq<char>| #[trigger] names(out@).contains(x) <==> exists|k: int|
                0 <= k < i && #[trigger] action_names(services@[k].actions@).contains(x),
        decreases services@.len() - i,
    {
        let acts = &services[i].actions;
        let mut j: usize = 0;
        while j < acts.len()
            invariant
                i < services@.len(),
                acts == &services@[i as int].actions,
                j <= acts@.len(),
                names(out@).no_duplicates(),
                forall|x: Seq<char>| #[trigger] names(out@).contains(x) <==> (exists|k: int|
                    0 <= k < i && #[trigger] action_names(services@[k].actions@).contains(x))
                    || action_names(acts@).subrange(0, j as int).contains(x),
            decreases acts@.len() - j,
        {
            let name = &acts[j].name;
            let ghost before = names(out@);
            proof {
                assert forall|x: Seq<char>| action_names(acts@).subrange(0, j + 1).contains(x)
                    <==> action_names(acts@).subrange(0, j as int).contains(x) || x == name@ by {
                    lemma_prefix_set_step(action_names(acts@), j as int);
                    assert(action_names(acts@)[j as int] == name@);
                    assert(action_names(acts@).subrange(0, j + 1).to_set().contains(x)
                        == action_names(acts@).subrange(0, j + 1).contains(x));
                    assert(action_names(acts@).subrange(0, j as int).to_set().contains(x)
                        == action_names(acts@).subrange(0, j as int).contains(x));
                }
            }
            if !contains_string(&out, name) {
                out.push(name.clone());
                proof {
                    assert(names(out@) =~= before.push(name@));
                    lemma_push_set(before, name@);
                    assert forall|x: Seq<char>| names(out@).contains(x) <==> before.contains(x) || x == name@ by {
                        assert(names(out@).to_set().contains(x) == names(out@).contains(x));
                        assert(before.to_set().contains(x) == before.contains(x));
                    }
                }
            }
            proof {
                assert forall|x: Seq<char>| #[trigger] names(out@).contains(x) <==> (exists|k: int|
                    0 <= k < i && #[trigger] action_names(services@[k].actions@).contains(x))
                    || action_names(acts@).subrange(0, j + 1).contains(x) by {
                    assert(names(out@).contains(x) <==> before.contains(x) || x == name@);
                    lemma_prefix_set_step(action_names(acts@), j as int);
                    assert(action_names(acts@)[j as int] == name@);
                    assert(action_names(acts@).subrange(0, j + 1).to_set().contains(x)
                        == action_names(acts@).subrange(0, j + 1).contains(x));
                    assert(action_names(acts@).subrange(0, j as int).to_set().contains(x)
                        == action_names(acts@).subrange(0, j as int).contains(x));
                }
            }
            j = j + 1;
        }
        proof {
            assert(action_names(acts@).subrange(0, acts@.len() as int) =~= action_names(acts@));
            assert forall|x: Seq<char>| #[trigger] names(out@).contains(x) <==> exists|k: int|
                0 <= k < i + 1 && #[trigger] action_names(services@[k].actions@).contains(x) by {
                if names(out@).contains(x) && !(exists|k: int| 0 <= k < i && #[trigger] action_names(services@[k].actions@).contains(x)) {
                    assert(action_names(services@[i as int].actions@).contains(x));
                }
            }
        }
        i = i + 1;
    }
    proof {
        assert(names(out@).to_set() =~= declared_actions(services@));
    }
    out
}

} // verus!

verus! {

impl Node {
    /// The record of a node first seen in `info`, hosting nothing yet.
    fn from_info(info: &InfoMessage) -> (r: Self)
        ensures
            fresh_record(r, *info),
            r.events@.len() == 0,
            r.actions@.len() == 0,
    {
        Node {
            name: info.sender.clone(),
            cpu: None,
            ip_list: copy_strings(&info.ip_list),
            hostname: info.hostname.clone(),
            client: info.client.duplicate(),
            instance_id: info.instance_id.clone(),
            events: Vec::new(),
            actions: Vec::new(),
        }
    }

    fn duplicate(&self) -> (r: Self)
        ensures
            same_record(r, *self),
            r.events@ == self.events@,
            r.actions@ == self.actions@,
    {
        Node {
            name: self.name.clone(),
            cpu: self.cpu,
            ip_list: copy_strings(&self.ip_list),
            hostname: self.hostname.clone(),
            client: self.client.duplicate(),
            instance_id: self.instance_id.clone(),
            events: copy_strings(&self.events),
            actions: copy_strings(&self.actions),
        }
    }
}

/// The peers this broker knows, and who hosts each event and action.
pub struct Registry {
    actions: StringHashMap<QueueSet>,
    events: StringHashMap<QueueSet>,
    nodes: StringHashMap<Node>,
}

impl Registry {
    /// Event name to the rotation of the nodes hosting it.
    pub closed spec fn events_view(&self) -> Map<Seq<char>, Seq<Seq<char>>> {
        queue_views(self.events@)
    }

    /// Action name to the rotation of the nodes hosting it.
    pub closed spec fn actions_view(&self) -> Map<Seq<char>, Seq<Seq<char>>> {
        queue_views(self.actions@)
    }

    /// Node name to its record.
    pub closed spec fn nodes_view(&self) -> Map<Seq<char>, Node> {
        self.nodes@
    }

    /// The registry's invariant: both routing indexes agree with the node
    /// records (a node listed as hosting an event is in that event's
    /// rotation, and the converse), no rotation is empty, and records sit
    /// under their own names.
    pub open spec fn wf(&self) -> bool {
        &&& index_wf(self.events_view(), self.nodes_view(), false)
        &&& index_wf(self.actions_view(), self.nodes_view(), true)
        &&& records_wf(self.nodes_view())
    }

    proof fn lemma_queues_wf(&self)
        requires
            self.wf(),
        ensures
            forall|k: Seq<char>| #[trigger] self.events@.contains_key(k) ==> self.events@[k].wf(),
            forall|k: Seq<char>| #[trigger] self.actions@.contains_key(k) ==> self.actions@[k].wf(),
    {
        assert forall|k: Seq<char>| #[trigger] self.events@.contains_key(k) implies self.events@[k].wf() by {
            assert(self.events_view().contains_key(k));
            assert(self.events_view()[k] == self.events@[k]@);
        }
        assert forall|k: Seq<char>| #[trigger] self.actions@.contains_key(k) implies self.actions@[k].wf() by {
            assert(self.actions_view().contains_key(k));
            assert(self.actions_view()[k] == self.actions@[k]@);
        }
    }

    pub fn new() -> (r: Self)
        ensures
            r.wf(),
            r.events_view() == Map::<Seq<char>, Seq<Seq<char>>>::empty(),
            r.actions_view() == Map::<Seq<char>, Seq<Seq<char>>>::empty(),
            r.nodes_view() == Map::<Seq<char>, Node>::empty(),
    {
        let r = Registry { actions: StringHashMap::new(), events: StringHashMap::new(), nodes: StringHashMap::new() };
        proof {
            assert(r.events_view() =~= Map::<Seq<char>, Seq<Seq<char>>>::empty());
            assert(r.actions_view() =~= Map::<Seq<char>, Seq<Seq<char>>>::empty());
        }
        r
    }

    /// The nodes hosting `event_name`, front of the rotation first.
    pub fn get_all_nodes_for_event(&self, event_name: &str) -> (r: Option<Vec<String>>)
        ensures
            match r {
                Some(v) => self.events_view().contains_key(event_name@)
                    && names(v@) == self.events_view()[event_name@],
                None => !self.events_view().contains_key(event_name@),
            },
    {
        match self.events.get(event_name) {
            Some(q) => {
                let v = q.iter();
                proof {
                    assert(names(v@) == v@.map_values(|s: String| s@));
                }
                Some(v)
            },
            None => None,
        }
    }

    fn pick(index: &mut StringHashMap<QueueSet>, name: &str) -> (r: Option<String>)
        requires
            forall|k: Seq<char>| #[trigger] old(index)@.contains_key(k) ==> old(index)@[k].wf(),
        ensures
            forall|k: Seq<char>| #[trigger] final(index)@.contains_key(k) ==> final(index)@[k].wf(),
            !old(index)@.contains_key(name@) ==> r is None && final(index)@ == old(index)@,
            old(index)@.contains_key(name@) && old(index)@[name@]@.len() > 0 ==> r is Some
                && r->0@ == old(index)@[name@]@[0]
                && queue_views(final(index)@) == queue_views(old(index)@).insert(name@, rotated(old(index)@[name@]@)),
    {
        let copy = match index.get(name) {
            Some(q) => Some(q.duplicate()),
            None => None,
        };
        match copy {
            Some(mut q) => {
                let r = q.get_round_robin();
                if r.is_some() {
                    index.insert(name.to_owned(), q);
                    proof {
                        assert(queue_views(index@) =~= queue_views(old(index)@).insert(name@, rotated(old(index)@[name@]@)));
                    }
                }
                r
            },
            None => None,
        }
    }

    /// Picks the node to receive an emitted event: the one that has waited
    /// longest in the event's rotation, which then moves to the back.
    pub fn get_node_name_for_event(&mut self, event_name: &str) -> (r: Option<String>)
        requires
            old(self).wf(),
        ensures
            final(self).wf(),
            final(self).nodes_view() == old(self).nodes_view(),
            final(self).actions_view() == old(self).actions_view(),
            !old(self).events_view().contains_key(event_name@) ==> r is None
                && final(self).events_view() == old(self).events_view(),
            old(self).events_view().contains_key(event_name@) ==> r is Some
                && r->0@ == old(self).events_view()[event_name@][0]
                && final(self).events_view() == old(self).events_view().insert(
                    event_name@,
                    rotated(old(self).events_view()[event_name@]),
                ),
    {
        proof {
            self.lemma_queues_wf();
        }
        let r = Self::pick(&mut self.events, event_name);
        proof {
            if old(self).events_view().contains_key(event_name@) {
                lemma_rotate_index(old(self).events_view(), old(self).nodes_view(), event_name@, false);
            }
        }
        r
    }

    /// Picks the node to receive a call, in the action's rotation.
    pub fn get_node_name_for_action(&mut self, action_name: &str) -> (r: Option<String>)
        requires
            old(self).wf(),
        ensures
            final(self).wf(),
            final(self).nodes_view() == old(self).nodes_view(),
            final(self).events_view() == old(self).events_view(),
            !old(self).actions_view().contains_key(action_name@) ==> r is None
                && final(self).actions_view() == old(self).actions_view(),
            old(self).actions_view().contains_key(action_name@) ==> r is Some
                && r->0@ == old(self).actions_view()[action_name@][0]
                && final(self).actions_view() == old(self).actions_view().insert(
                    action_name@,
                    rotated(old(self).actions_view()[action_name@]),
                ),
    {
        proof {
            self.lemma_queues_wf();
        }
        let r = Self::pick(&mut self.actions, action_name);
        proof {
            if old(self).actions_view().contains_key(action_name@) {
                lemma_rotate_index(old(self).actions_view(), old(self).nodes_view(), action_name@, true);
            }
        }
        r
    }

    /// Records a HEARTBEAT from `sender`; returns whether the node is known.
    pub fn update_node(&mut self, sender: &str, cpu: u32) -> (known: bool)
        requires
            old(self).wf(),
        ensures
            final(self).wf(),
            known == old(self).nodes_view().contains_key(sender@),
            final(self).events_view() == old(self).events_view(),
            final(self).actions_view() == old(self).actions_view(),
            final(self).nodes_view().dom() == old(self).nodes_view().dom(),
            forall|n: Seq<char>| n != sender@ && #[trigger] old(self).nodes_view().contains_key(n)
                ==> final(self).nodes_view()[n] == old(self).nodes_view()[n],
            known ==> final(self).nodes_view()[sender@].cpu == Some(cpu)
                && final(self).nodes_view()[sender@].name@ == sender@
                && same_identity(final(self).nodes_view()[sender@], old(self).nodes_view()[sender@])
                && final(self).nodes_view()[sender@].event_set() == old(self).nodes_view()[sender@].event_set()
                && final(self).nodes_view()[sender@].action_set() == old(self).nodes_view()[sender@].action_set(),
    {
        let copy = match self.nodes.get(sender) {
            Some(n) => Some(n.duplicate()),
            None => None,
        };
        match copy {
            Some(mut node) => {
                node.cpu = Some(cpu);
                let ghost old_nodes = self.nodes@;
                self.nodes.insert(sender.to_owned(), node);
                proof {
                    assert(self.nodes@.dom() =~= old_nodes.dom());
                    let nv = self.nodes_view();
                    assert(members(nv[sender@], false) == members(old_nodes[sender@], false));
                    assert(members(nv[sender@], true) == members(old_nodes[sender@], true));
                    assert forall|n: Seq<char>, e: Seq<char>|
                        nv.contains_key(n) && #[trigger] members(nv[n], false).contains(e)
                        implies self.events_view().contains_key(e) && self.events_view()[e].contains(n) by {
                        assert(members(old_nodes[n], false).contains(e));
                    }
                    assert forall|n: Seq<char>, e: Seq<char>|
                        nv.contains_key(n) && #[trigger] members(nv[n], true).contains(e)
                        implies self.actions_view().contains_key(e) && self.actions_view()[e].contains(n) by {
                        assert(members(old_nodes[n], true).contains(e));
                    }
                }
                true
            },
            None => false,
        }
    }
}

} // verus!

verus! {

impl Registry {
    /// Adds each name of `declared` to `node`'s list and puts `node` in that
    /// name's rotation of `index`.
    fn record_names(
        index: &mut StringHashMap<QueueSet>,
        list: &mut Vec<String>,
        node: &String,
        declared: &Vec<String>,
    )
        requires
            forall|k: Seq<char>| #[trigger] old(index)@.contains_key(k) ==> old(index)@[k].wf(),
            names(old(list)@).no_duplicates(),
        ensures
            forall|k: Seq<char>| #[trigger] final(index)@.contains_key(k) ==> final(index)@[k].wf(),
            names(final(list)@).no_duplicates(),
            queue_views(final(index)@) == reconciled(queue_views(old(index)@), node@, names(declared@).to_set()),
            names(final(list)@).to_set() == names(old(list)@).to_set().union(names(declared@).to_set()),
    {
        let ghost start = queue_views(index@);
        let ghost base = names(list@).to_set();
        let mut k: usize = 0;
        proof {
            assert(names(declared@).subrange(0, 0).to_set() =~= Set::<Seq<char>>::empty());
            assert(reconciled(start, node@, Set::empty()) =~= start);
            assert(base.union(Set::empty()) =~= base);
        }
        while k < declared.len()
            invariant
                k <= declared@.len(),
                forall|j: Seq<char>| #[trigger] index@.contains_key(j) ==> index@[j].wf(),
                names(list@).no_duplicates(),
                queue_views(index@) == reconciled(start, node@, names(declared@).subrange(0, k as int).to_set()),
                names(list@).to_set() == base.union(names(declared@).subrange(0, k as int).to_set()),
            decreases declared@.len() - k,
        {
            let name = &declared[k];
            let ghost prefix = names(declared@).subrange(0, k as int).to_set();
            proof {
                lemma_prefix_set_step(names(declared@), k as int);
                lemma_reconciled_step(start, node@, prefix, name@);
            }
            index_add(index, name, node);
            let ghost before = names(list@);
            if !contains_string(list, name) {
                list.push(name.clone());
                proof {
                    assert(names(list@) =~= before.push(name@));
                    lemma_push_set(before, name@);
                }
            } else {
                proof {
                    assert(before.to_set().contains(name@));
                }
            }
            proof {
                assert(names(list@).to_set() =~= base.union(prefix.insert(name@)));
            }
            k = k + 1;
        }
        proof {
            assert(names(declared@).subrange(0, declared@.len() as int) =~= names(declared@));
        }
    }

    /// Reconciles a peer's INFO: creates its record when it is new, then
    /// adds every event and action its services declare, to its record and to
    /// the name's rotation. Nothing is ever taken away here. Returns whether
    /// the node was new.
    pub fn add_or_update_node(&mut self, info: &InfoMessage) -> (is_new: bool)
        requires
            old(self).wf(),
        ensures
            final(self).wf(),
            is_new == !old(self).nodes_view().contains_key(info.sender@),
            final(self).events_view() == reconciled(
                old(self).events_view(),
                info.sender@,
                declared_events(info.services@),
            ),
            final(self).actions_view() == reconciled(
                old(self).actions_view(),
                info.sender@,
                declared_actions(info.services@),
            ),
            final(self).nodes_view().dom() == old(self).nodes_view().dom().insert(info.sender@),
            forall|n: Seq<char>| n != info.sender@ && #[trigger] old(self).nodes_view().contains_key(n)
                ==> final(self).nodes_view()[n] == old(self).nodes_view()[n],
            is_new ==> fresh_record(final(self).nodes_view()[info.sender@], *info)
                && final(self).nodes_view()[info.sender@].event_set() == declared_events(info.services@)
                && final(self).nodes_view()[info.sender@].action_set() == declared_actions(info.services@),
            !is_new ==> same_record(final(self).nodes_view()[info.sender@], old(self).nodes_view()[info.sender@])
                && final(self).nodes_view()[info.sender@].event_set()
                    == old(self).nodes_view()[info.sender@].event_set().union(declared_events(info.services@))
                && final(self).nodes_view()[info.sender@].action_set()
                    == old(self).nodes_view()[info.sender@].action_set().union(declared_actions(info.services@)),
    {
        proof {
            self.lemma_queues_wf();
        }
        let known = self.nodes.get(info.sender.as_str());
        let mut node = match known {
            Some(n) => n.duplicate(),
            None => Node::from_info(info),
        };
        let is_new = known.is_none();
        proof {
            if is_new {
                assert(names(node.events@) =~= Seq::<Seq<char>>::empty());
                assert(names(node.actions@) =~= Seq::<Seq<char>>::empty());
                assert(node.event_set() =~= Set::<Seq<char>>::empty());
                assert(node.action_set() =~= Set::<Seq<char>>::empty());
            } else {
                assert(names(node.events@) == names(old(self).nodes@[info.sender@].events@));
                assert(names(node.actions@) == names(old(self).nodes@[info.sender@].actions@));
            }
        }
        let ghost node0 = node;
        let event_names = declared_event_names(&info.services);
        let action_names = declared_action_names(&info.services);
        Self::record_names(&mut self.events, &mut node.events, &info.sender, &event_names);
        Self::record_names(&mut self.actions, &mut node.actions, &info.sender, &action_names);
        let ghost old_nodes = self.nodes@;
        self.nodes.insert(info.sender.clone(), node);
        proof {
            let nv = self.nodes_view();
            assert(nv[info.sender@] == node);
            assert(same_record(node, node0));
            lemma_reconcile_index(
                old(self).events_view(),
                old_nodes,
                nv,
                info.sender@,
                declared_events(info.services@),
                false,
            );
            lemma_reconcile_index(
                old(self).actions_view(),
                old_nodes,
                nv,
                info.sender@,
                declared_actions(info.services@),
                true,
            );
            if is_new {
                assert(Set::<Seq<char>>::empty().union(declared_events(info.services@)) =~= declared_events(info.services@));
                assert(Set::<Seq<char>>::empty().union(declared_actions(info.services@)) =~= declared_actions(info.services@));
            }
        }
        is_new
    }

    /// Drops node `node_name`: its record goes, it leaves the rotation of each
    /// event and action it hosted, and a rotation left empty is removed.
    /// Returns whether the node was known.
    pub fn remove_node(&mut self, node_name: &String) -> (known: bool)
        requires
            old(self).wf(),
        ensures
            final(self).wf(),
            known == old(self).nodes_view().contains_key(node_name@),
            !known ==> final(self).events_view() == old(self).events_view()
                && final(self).actions_view() == old(self).actions_view()
                && final(self).nodes_view() == old(self).nodes_view(),
            known ==> final(self).nodes_view() == old(self).nodes_view().remove(node_name@)
                && final(self).events_view() == pruned(
                    old(self).events_view(),
                    node_name@,
                    old(self).nodes_view()[node_name@].event_set(),
                )
                && final(self).actions_view() == pruned(
                    old(self).actions_view(),
                    node_name@,
                    old(self).nodes_view()[node_name@].action_set(),
                ),
            forall|e: Seq<char>| #[trigger] final(self).events_view().contains_key(e)
                ==> !final(self).events_view()[e].contains(node_name@),
            forall|a: Seq<char>| #[trigger] final(self).actions_view().contains_key(a)
                ==> !final(self).actions_view()[a].contains(node_name@),
    {
        proof {
            self.lemma_queues_wf();
        }
        let node = match self.nodes.get(node_name.as_str()) {
            Some(n) => n.duplicate(),
            None => {
                proof {
                    assert forall|e: Seq<char>| #[trigger] self.events_view().contains_key(e)
                        implies !self.events_view()[e].contains(node_name@) by {}
                    assert forall|a: Seq<char>| #[trigger] self.actions_view().contains_key(a)
                        implies !self.actions_view()[a].contains(node_name@) by {}
                }
                return false;
            },
        };
        let ghost rec = self.nodes@[node_name@];
        proof {
            assert(names(node.events@) == names(rec.events@));
            assert(names(node.actions@) == names(rec.actions@));
        }
        self.nodes.remove(node_name.as_str());
        Self::drop_names(&mut self.events, node_name, &node.events);
        Self::drop_names(&mut self.actions, node_name, &node.actions);
        proof {
            lemma_prune_index(old(self).events_view(), old(self).nodes_view(), node_name@, false);
            lemma_prune_index(old(self).actions_view(), old(self).nodes_view(), node_name@, true);
        }
        true
    }

    /// Takes `node` out of the rotation of each name in `hosted`.
    fn drop_names(index: &mut StringHashMap<QueueSet>, node: &String, hosted: &Vec<String>)
        requires
            forall|k: Seq<char>| #[trigger] old(index)@.contains_key(k) ==> old(index)@[k].wf(),
            names(hosted@).no_duplicates(),
        ensures
            forall|k: Seq<char>| #[trigger] final(index)@.contains_key(k) ==> final(index)@[k].wf(),
            queue_views(final(index)@) == pruned(queue_views(old(index)@), node@, names(hosted@).to_set()),
    {
        let ghost start = queue_views(index@);
        let mut k: usize = 0;
        proof {
            assert(names(hosted@).subrange(0, 0).to_set() =~= Set::<Seq<char>>::empty());
            assert(pruned(start, node@, Set::empty()) =~= start);
        }
        while k < hosted.len()
            invariant
                k <= hosted@.len(),
                names(hosted@).no_duplicates(),
                forall|j: Seq<char>| #[trigger] index@.contains_key(j) ==> index@[j].wf(),
                queue_views(index@) == pruned(start, node@, names(hosted@).subrange(0, k as int).to_set()),
            decreases hosted@.len() - k,
        {
            let name = &hosted[k];
            let ghost prefix = names(hosted@).subrange(0, k as int).to_set();
            proof {
                lemma_prefix_set_step(names(hosted@), k as int);
                assert(names(hosted@)[k as int] == name@);
                if prefix.contains(name@) {
                    let w = choose|w: int| 0 <= w < k && names(hosted@).subrange(0, k as int)[w] == name@;
                    assert(names(hosted@)[w] == names(hosted@)[k as int]);
                }
                lemma_pruned_step(start, node@, prefix, name@);
            }
            index_drop(index, name, node);
            k = k + 1;
        }
        proof {
            assert(names(hosted@).subrange(0, hosted@.len() as int) =~= names(hosted@));
        }
    }
}

} // verus!

verus! {

/// Every event a known node hosts routes to that node: its rotation exists
/// and holds the node. The same holds of actions.
pub proof fn lemma_hosted_names_are_routed(reg: Registry, node: Seq<char>, name: Seq<char>)
    requires
        reg.wf(),
        reg.nodes_view().contains_key(node),
    ensures
        reg.nodes_view()[node].event_set().contains(name)
            ==> reg.events_view().contains_key(name) && reg.events_view()[name].contains(node),
        reg.nodes_view()[node].action_set().contains(name)
            ==> reg.actions_view().contains_key(name) && reg.actions_view()[name].contains(node),
{
    assert(members(reg.nodes_view()[node], false) == reg.nodes_view()[node].event_set());
    assert(members(reg.nodes_view()[node], true) == reg.nodes_view()[node].action_set());
}

/// Reconciling is idempotent: declaring the same names again for the same
/// node leaves a routing index as the first declaration left it. Applied to
/// the event index and to the action index, this says that re-observing the
/// same INFO from a node leaves both unchanged.
pub proof fn lemma_reconcile_idempotent(
    index: Map<Seq<char>, Seq<Seq<char>>>,
    node: Seq<char>,
    declared: Set<Seq<char>>,
)
    ensures
        reconciled(reconciled(index, node, declared), node, declared) == reconciled(index, node, declared),
{
    let once = reconciled(index, node, declared);
    assert forall|e: Seq<char>| declared.contains(e) implies #[trigger] inserted(once[e], node) == once[e] by {
        let base = if index.contains_key(e) { index[e] } else { Seq::empty() };
        lemma_inserted_idempotent(base, node);
    }
    assert(reconciled(once, node, declared) =~= once);
}

/// A known node whose INFO declares nothing beyond what its record already
/// lists changes neither routing index when that INFO is observed again.
pub proof fn lemma_known_info_changes_nothing(reg: Registry, info: InfoMessage)
    requires
        reg.wf(),
        reg.nodes_view().contains_key(info.sender@),
        declared_events(info.services@).subset_of(reg.nodes_view()[info.sender@].event_set()),
        declared_actions(info.services@).subset_of(reg.nodes_view()[info.sender@].action_set()),
    ensures
        reconciled(reg.events_view(), info.sender@, declared_events(info.services@)) == reg.events_view(),
        reconciled(reg.actions_view(), info.sender@, declared_actions(info.services@)) == reg.actions_view(),
{
    let s = info.sender@;
    let n = reg.nodes_view()[s];
    let ev = reg.events_view();
    let ac = reg.actions_view();
    let de = declared_events(info.services@);
    let da = declared_actions(info.services@);
    assert forall|e: Seq<char>| #[trigger] reconciled(ev, s, de).contains_key(e)
        implies ev.contains_key(e) && reconciled(ev, s, de)[e] == ev[e] by {
        if de.contains(e) {
            assert(members(n, false).contains(e));
            assert(ev[e].contains(s));
        }
    }
    assert forall|a: Seq<char>| #[trigger] reconciled(ac, s, da).contains_key(a)
        implies ac.contains_key(a) && reconciled(ac, s, da)[a] == ac[a] by {
        if da.contains(a) {
            assert(members(n, true).contains(a));
            assert(ac[a].contains(s));
        }
    }
    assert(reconciled(ev, s, de) =~= ev);
    assert(reconciled(ac, s, da) =~= ac);
}

/// The verdict of a node's liveness timer on one tick.
#[derive(Debug, Clone, Copy, PartialEq, Eq)]
pub enum WatcherVerdict {
    /// No HEARTBEAT for the whole timeout: the node is to be removed and the
    /// timer stops.
    Missed,
    /// The timer is armed again for another timeout.
    Rearm,
}

/// Per-node liveness timer. Times are whole seconds on a monotonic clock.
pub struct NodeWatcher {
    pub node_name: String,
    pub heartbeat_timeout: u32,
    pub last_heartbeat: u64,
}

impl NodeWatcher {
    pub fn new(name: String, heartbeat_timeout: u32, now: u64) -> (r: Self)
        ensures
            r.node_name == name,
            r.heartbeat_timeout == heartbeat_timeout,
            r.last_heartbeat == now,
    {
        NodeWatcher { node_name: name, heartbeat_timeout, last_heartbeat: now }
    }

    pub fn received_heartbeat(&mut self, now: u64)
        ensures
            final(self).last_heartbeat == now,
            final(self).node_name == old(self).node_name,
            final(self).heartbeat_timeout == old(self).heartbeat_timeout,
    {
        self.last_heartbeat = now;
    }

    /// `Missed` once at least `heartbeat_timeout` seconds passed since the
    /// last HEARTBEAT, `Rearm` before.
    pub fn tick(&self, now: u64) -> (r: WatcherVerdict)
        ensures
            r == (if now >= self.last_heartbeat && now - self.last_heartbeat >= self.heartbeat_timeout {
                WatcherVerdict::Missed
            } else {
                WatcherVerdict::Rearm
            }),
    {
        if now >= self.last_heartbeat && now - self.last_heartbeat >= self.heartbeat_timeout as u64 {
            WatcherVerdict::Missed
        } else {
            WatcherVerdict::Rearm
        }
    }
}

} // verus!
