use vstd::prelude::*;
use vstd::arithmetic::div_mod::{lemma_fundamental_div_mod, lemma_fundamental_div_mod_converse};

verus! {

/// Round-robin order after one extraction: the front element moves to the back.
pub open spec fn rotated(q: Seq<Seq<char>>) -> Seq<Seq<char>> {
    q.drop_first().push(q[0])
}

/// The queue after inserting `x`: unchanged when present, appended otherwise.
pub open spec fn inserted(q: Seq<Seq<char>>, x: Seq<char>) -> Seq<Seq<char>> {
    if q.contains(x) {
        q
    } else {
        q.push(x)
    }
}

/// Facts about dropping a member from a duplicate-free rotation.
pub proof fn lemma_remove_value(q: Seq<Seq<char>>, x: Seq<char>)
    requires
        q.no_duplicates(),
    ensures
        q.remove_value(x).no_duplicates(),
        !q.remove_value(x).contains(x),
        forall|y: Seq<char>| y != x ==> (#[trigger] q.remove_value(x).contains(y) <==> q.contains(y)),
        q.contains(x) ==> q.remove_value(x).len() == q.len() - 1,
        !q.contains(x) ==> q.remove_value(x) == q,
{
    q.index_of_first_ensures(x);
    if q.contains(x) {
        let i = q.index_of_first(x).unwrap();
        let r = q.remove(i);
        assert(q.remove_value(x) == r);
        assert forall|j: int, k: int| 0 <= j < r.len() && 0 <= k < r.len() && j != k implies r[j] != r[k] by {
            let jj = if j < i { j } else { j + 1 };
            let kk = if k < i { k } else { k + 1 };
            assert(r[j] == q[jj]);
            assert(r[k] == q[kk]);
        }
        assert forall|y: Seq<char>| y != x implies (#[trigger] r.contains(y) <==> q.contains(y)) by {
            if q.contains(y) {
                let w = choose|w: int| 0 <= w < q.len() && q[w] == y;
                assert(w != i);
                if w < i {
                    assert(r[w] == y);
                } else {
                    assert(r[w - 1] == y);
                }
            }
            if r.contains(y) {
                let w = choose|w: int| 0 <= w < r.len() && r[w] == y;
                if w < i {
                    assert(q[w] == y);
                } else {
                    assert(q[w + 1] == y);
                }
            }
        }
        if r.contains(x) {
            let w = choose|w: int| 0 <= w < r.len() && r[w] == x;
            if w < i {
                assert(q[w] == x);
            } else {
                assert(q[w + 1] == x);
            }
        }
    }
}

/// Inserting a member twice is inserting it once.
pub proof fn lemma_inserted_idempotent(q: Seq<Seq<char>>, x: Seq<char>)
    ensures
        inserted(inserted(q, x), x) == inserted(q, x),
        inserted(q, x).contains(x),
        forall|y: Seq<char>| #[trigger] inserted(q, x).contains(y) <==> (q.contains(y) || y == x),
        q.no_duplicates() ==> inserted(q, x).no_duplicates(),
        inserted(q, x).len() > 0,
{
    if !q.contains(x) {
        let r = q.push(x);
        assert(r[q.len() as int] == x);
        assert forall|y: Seq<char>| #[trigger] r.contains(y) <==> (q.contains(y) || y == x) by {
            if q.contains(y) {
                let w = choose|w: int| 0 <= w < q.len() && q[w] == y;
                assert(r[w] == y);
            }
            if r.contains(y) && y != x {
                let w = choose|w: int| 0 <= w < r.len() && r[w] == y;
                assert(q[w] == y);
            }
        }
    } else {
        let w = choose|w: int| 0 <= w < q.len() && q[w] == x;
        assert(q.len() > 0);
    }
}

/// One extraction keeps the members and their uniqueness.
pub proof fn lemma_rotated(q: Seq<Seq<char>>)
    requires
        q.len() > 0,
    ensures
        rotated(q).len() == q.len(),
        forall|y: Seq<char>| #[trigger] rotated(q).contains(y) <==> q.contains(y),
        q.no_duplicates() ==> rotated(q).no_duplicates(),
{
    let r = rotated(q);
    let n = q.len() as int;
    assert forall|j: int| 0 <= j < n implies #[trigger] r[j] == q[if j < n - 1 { j + 1 } else { 0 }] by {}
    assert forall|y: Seq<char>| #[trigger] r.contains(y) <==> q.contains(y) by {
        if q.contains(y) {
            let w = choose|w: int| 0 <= w < n && q[w] == y;
            if w == 0 {
                assert(r[n - 1] == y);
            } else {
                assert(r[w - 1] == y);
            }
        }
        if r.contains(y) {
            let w = choose|w: int| 0 <= w < n && r[w] == y;
            assert(r[w] == q[if w < n - 1 { w + 1 } else { 0 }]);
        }
    }
    if q.no_duplicates() {
        assert forall|j: int, k: int| 0 <= j < n && 0 <= k < n && j != k implies r[j] != r[k] by {
            assert(r[j] == q[if j < n - 1 { j + 1 } else { 0 }]);
            assert(r[k] == q[if k < n - 1 { k + 1 } else { 0 }]);
        }
    }
}

/// The rotation after `k` extractions from `q`.
pub open spec fn rotation_after(q: Seq<Seq<char>>, k: nat) -> Seq<Seq<char>>
    decreases k,
{
    if k == 0 {
        q
    } else {
        rotated(rotation_after(q, (k - 1) as nat))
    }
}

/// The member handed out by the `k`-th extraction (counting from zero).
pub open spec fn target_of(q: Seq<Seq<char>>, k: nat) -> Seq<char> {
    rotation_after(q, k)[0]
}

/// The members handed out by the `q.len()` extractions that follow the first `start`.
pub open spec fn window(q: Seq<Seq<char>>, start: nat) -> Seq<Seq<char>> {
    Seq::new(q.len(), |j: int| target_of(q, (start + j) as nat))
}

proof fn lemma_mod_step(k: int, n: int)
    requires
        n > 0,
        k >= 0,
    ensures
        (k + 1) % n == if k % n + 1 < n { k % n + 1 } else { 0 },
{
    lemma_fundamental_div_mod(k, n);
    let a = k / n;
    let r = k % n;
    if r + 1 < n {
        assert(k + 1 == a * n + (r + 1)) by (nonlinear_arith)
            requires k == n * a + r;
        lemma_fundamental_div_mod_converse(k + 1, n, a, r + 1);
    } else {
        assert(k + 1 == (a + 1) * n + 0) by (nonlinear_arith)
            requires k == n * a + r, r + 1 == n;
        lemma_fundamental_div_mod_converse(k + 1, n, a + 1, 0);
    }
}

proof fn lemma_rotation_shape(q: Seq<Seq<char>>, k: nat)
    requires
        q.len() > 0,
    ensures
        rotation_after(q, k) == q.subrange((k as int) % (q.len() as int), q.len() as int) + q.subrange(0, (k as int) % (q.len() as int)),
    decreases k,
{
    let n = q.len() as int;
    if k == 0 {
        lemma_fundamental_div_mod_converse(0, n, 0, 0);
        assert(q.subrange(0, n) + q.subrange(0, 0) =~= q);
    } else {
        let p = (k - 1) as nat;
        lemma_rotation_shape(q, p);
        lemma_mod_step(p as int, n);
        let r = (p as int) % n;
        let prev = q.subrange(r, n) + q.subrange(0, r);
        assert(rotation_after(q, k) == rotated(prev));
        if r + 1 < n {
            assert(rotated(prev) =~= q.subrange(r + 1, n) + q.subrange(0, r + 1));
        } else {
            assert(rotated(prev) =~= q.subrange(0, n) + q.subrange(0, 0));
        }
    }
}

/// Round-robin fairness: over any `q.len()` consecutive extractions with no
/// change to the members, every member of a duplicate-free rotation is handed
/// out exactly once, and the rotation is back where the window began.
pub proof fn lemma_round_robin_fair(q: Seq<Seq<char>>, start: nat)
    requires
        q.no_duplicates(),
        q.len() > 0,
    ensures
        window(q, start).len() == q.len(),
        window(q, start).no_duplicates(),
        forall|x: Seq<char>| q.contains(x) <==> window(q, start).contains(x),
        rotation_after(q, start + q.len()) == rotation_after(q, start),
{
    let n = q.len() as int;
    let w = window(q, start);
    lemma_fundamental_div_mod(start as int, n);
    let a = (start as int) / n;
    let s = (start as int) % n;
    assert forall|j: int| 0 <= j < n implies #[trigger] w[j] == q[if s + j < n { s + j } else { s + j - n }] by {
        lemma_rotation_shape(q, (start + j) as nat);
        if s + j < n {
            assert(start + j == a * n + (s + j)) by (nonlinear_arith)
                requires start == n * a + s;
            lemma_fundamental_div_mod_converse(start + j, n, a, s + j);
        } else {
            assert(start + j == (a + 1) * n + (s + j - n)) by (nonlinear_arith)
                requires start == n * a + s;
            lemma_fundamental_div_mod_converse(start + j, n, a + 1, s + j - n);
        }
    }
    assert forall|j: int, k: int| 0 <= j < n && 0 <= k < n && j != k implies w[j] != w[k] by {
        assert(w[j] == q[if s + j < n { s + j } else { s + j - n }]);
        assert(w[k] == q[if s + k < n { s + k } else { s + k - n }]);
    }
    assert forall|x: Seq<char>| q.contains(x) <==> w.contains(x) by {
        if q.contains(x) {
            let i = choose|i: int| 0 <= i < n && q[i] == x;
            let j = if i >= s { i - s } else { i - s + n };
            assert(w[j] == q[if s + j < n { s + j } else { s + j - n }]);
            assert(w[j] == x);
        }
        if w.contains(x) {
            let j = choose|j: int| 0 <= j < n && w[j] == x;
            assert(w[j] == q[if s + j < n { s + j } else { s + j - n }]);
        }
    }
    lemma_rotation_shape(q, start);
    lemma_rotation_shape(q, start + q.len());
    assert(start + n == (a + 1) * n + s) by (nonlinear_arith)
        requires start == n * a + s;
    lemma_fundamental_div_mod_converse(start + n, n, a + 1, s);
}

/// What `k` successive extractions give, as each call's contract states it:
/// `states[i]` is the rotation before call `i`, the call hands out its front
/// and leaves it rotated.
pub open spec fn successive_picks(
    q: Seq<Seq<char>>,
    states: Seq<Seq<Seq<char>>>,
    targets: Seq<Seq<char>>,
) -> bool {
    &&& states.len() == targets.len() + 1
    &&& states[0] == q
    &&& forall|i: int| 0 <= i < targets.len() ==> #[trigger] targets[i] == states[i][0]
        && states[i + 1] == rotated(states[i])
}

proof fn lemma_states_follow(q: Seq<Seq<char>>, states: Seq<Seq<Seq<char>>>, targets: Seq<Seq<char>>, k: nat)
    requires
        successive_picks(q, states, targets),
        k <= targets.len(),
    ensures
        states[k as int] == rotation_after(q, k),
    decreases k,
{
    if k > 0 {
        lemma_states_follow(q, states, targets, (k - 1) as nat);
        assert(targets[k - 1] == states[k - 1][0]);
    }
}

/// Strict round-robin over successive calls with no change to the members:
/// call `i` targets `q[i % q.len()]`, and any `q.len()` consecutive calls
/// target every member exactly once.
pub proof fn lemma_successive_picks_fair(q: Seq<Seq<char>>, states: Seq<Seq<Seq<char>>>, targets: Seq<Seq<char>>)
    requires
        q.no_duplicates(),
        q.len() > 0,
        successive_picks(q, states, targets),
    ensures
        forall|i: int| 0 <= i < targets.len() ==> #[trigger] targets[i] == q[i % (q.len() as int)],
        forall|i: int| 0 <= i && i + q.len() <= targets.len() ==> {
            &&& (#[trigger] targets.subrange(i, i + q.len())).no_duplicates()
            &&& forall|x: Seq<char>| q.contains(x) <==> targets.subrange(i, i + q.len()).contains(x)
        },
{
    let n = q.len() as int;
    assert forall|i: int| 0 <= i < targets.len() implies #[trigger] targets[i] == target_of(q, i as nat) by {
        lemma_states_follow(q, states, targets, i as nat);
        assert(targets[i] == states[i][0]);
    }
    assert forall|i: int| 0 <= i < targets.len() implies #[trigger] targets[i] == q[i % n] by {
        lemma_rotation_shape(q, i as nat);
        lemma_fundamental_div_mod(i, n);
        assert(targets[i] == target_of(q, i as nat));
    }
    assert forall|i: int| 0 <= i && i + q.len() <= targets.len() implies {
        &&& (#[trigger] targets.subrange(i, i + q.len())).no_duplicates()
        &&& forall|x: Seq<char>| q.contains(x) <==> targets.subrange(i, i + q.len()).contains(x)
    } by {
        lemma_round_robin_fair(q, i as nat);
        assert forall|j: int| 0 <= j < n implies #[trigger] targets.subrange(i, i + n)[j] == window(q, i as nat)[j] by {
            assert(targets[i + j] == target_of(q, (i + j) as nat));
        }
        assert(targets.subrange(i, i + n) =~= window(q, i as nat));
    }
}

/// An ordered set of names that hands its members out in a fair rotation.
///
/// Insertion appends at the back and is a no-op on a member; removal keeps
/// the relative order of the others; `get_round_robin` returns the member that
/// has waited longest and moves it to the back.
#[derive(Debug)]
pub struct QueueSet {
    queue: Vec<String>,
}

impl View for QueueSet {
    type V = Seq<Seq<char>>;

    closed spec fn view(&self) -> Seq<Seq<char>> {
        self.queue@.map_values(|s: String| s@)
    }
}

impl QueueSet {
    /// No member appears twice.
    pub open spec fn wf(&self) -> bool {
        self@.no_duplicates()
    }

    pub fn new() -> (r: Self)
        ensures
            r@ == Seq::<Seq<char>>::empty(),
            r.wf(),
    {
        QueueSet { queue: Vec::new() }
    }

    /// Index of `item` in the rotation, if it is a member.
    pub fn position(&self, item: &String) -> (r: Option<usize>)
        ensures
            match r {
                Some(i) => i < self@.len() && self@[i as int] == item@,
                None => !self@.contains(item@),
            },
    {
        let mut i: usize = 0;
        while i < self.queue.len()
            invariant
                i <= self.queue@.len(),
                forall|j: int| 0 <= j < i ==> self@[j] != item@,
            decreases self.queue@.len() - i,
        {
            if self.queue[i] == *item {
                return Some(i);
            }
            i = i + 1;
        }
        None
    }

    pub fn contains(&self, item: &String) -> (r: bool)
        ensures
            r == self@.contains(item@),
    {
        self.position(item).is_some()
    }

    pub fn insert(&mut self, item: String)
        requires
            old(self).wf(),
        ensures
            final(self).wf(),
            final(self)@ == inserted(old(self)@, item@),
    {
        if !self.contains(&item) {
            self.queue.push(item);
            proof {
                assert(self@ =~= old(self)@.push(item@));
            }
        }
    }

    pub fn remove(&mut self, item: &String)
        requires
            old(self).wf(),
        ensures
            final(self).wf(),
            final(self)@ == old(self)@.remove_value(item@),
            !final(self)@.contains(item@),
            forall|x: Seq<char>| x != item@ ==> (final(self)@.contains(x) <==> old(self)@.contains(x)),
    {
        proof {
            lemma_remove_value(self@, item@);
            self@.index_of_first_ensures(item@);
        }
        match self.position(item) {
            Some(i) => {
                proof {
                    let f = self@.index_of_first(item@).unwrap();
                    assert(f == i as int);
                }
                let ghost before = self@;
                self.queue.remove(i);
                proof {
                    assert(self@ =~= before.remove(i as int));
                }
            },
            None => {},
        }
    }

    pub fn len(&self) -> (r: usize)
        ensures
            r == self@.len(),
    {
        self.queue.len()
    }

    /// The members, front of the rotation first.
    pub fn iter(&self) -> (r: Vec<String>)
        ensures
            r@.map_values(|s: String| s@) == self@,
    {
        let mut out: Vec<String> = Vec::new();
        let mut i: usize = 0;
        while i < self.queue.len()
            invariant
                i <= self.queue@.len(),
                out@.len() == i,
                forall|j: int| 0 <= j < i ==> out@[j]@ == self@[j],
            decreases self.queue@.len() - i,
        {
            out.push(self.queue[i].clone());
            i = i + 1;
        }
        proof {
            assert(out@.map_values(|s: String| s@) =~= self@);
        }
        out
    }

    /// A copy with the same members in the same order.
    pub fn duplicate(&self) -> (r: Self)
        ensures
            r@ == self@,
    {
        QueueSet { queue: self.iter() }
    }

    /// Hands out the member that has waited longest and moves it to the back.
    pub fn get_round_robin(&mut self) -> (r: Option<String>)
        requires
            old(self).wf(),
        ensures
            final(self).wf(),
            old(self)@.len() == 0 ==> r is None && final(self)@ == old(self)@,
            old(self)@.len() > 0 ==> r is Some && r->0@ == old(self)@[0]
                && final(self)@ == rotated(old(self)@),
    {
        if self.queue.len() == 0 {
            return None;
        }
        let ghost before = self@;
        let item = self.queue.remove(0);
        let copy = item.clone();
        self.queue.push(item);
        proof {
            assert(self@ =~= rotated(before));
            assert forall|j: int, k: int| 0 <= j < self@.len() && 0 <= k < self@.len() && j != k
                implies self@[j] != self@[k] by {
                let n = before.len();
                let jj = if j < n - 1 { j + 1 } else { 0 };
                let kk = if k < n - 1 { k + 1 } else { 0 };
                assert(self@[j] == before[jj]);
                assert(self@[k] == before[kk]);
            }
        }
        Some(copy)
    }
}

} // verus!
