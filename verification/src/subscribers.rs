//! Who listens under which public key: the relay's subscription table.
//!
//! Each subscriber (a direct socket or a tunnel session) is named by a
//! number; the table maps a public key to the subscribers registered under
//! it, in the order they subscribed. A key whose last subscriber leaves is
//! dropped from the table.

use vstd::prelude::*;

verus! {

/// The predicate "is not `id`", used to drop one subscriber from a list.
pub open spec fn other_than(id: u64) -> spec_fn(u64) -> bool {
    |x: u64| x != id
}

/// The table after `id` subscribes under `k`: appended to the list of `k`,
/// which is created when absent.
pub open spec fn add_subscriber(m: Map<Seq<char>, Seq<u64>>, k: Seq<char>, id: u64) -> Map<
    Seq<char>,
    Seq<u64>,
> {
    m.insert(
        k,
        if m.contains_key(k) {
            m[k].push(id)
        } else {
            seq![id]
        },
    )
}

/// The table after `id` leaves `k`: every occurrence of `id` is dropped from
/// the list of `k`, and `k` itself when its list becomes empty.
pub open spec fn remove_subscriber(m: Map<Seq<char>, Seq<u64>>, k: Seq<char>, id: u64) -> Map<
    Seq<char>,
    Seq<u64>,
> {
    if m.contains_key(k) {
        let kept = m[k].filter(other_than(id));
        if kept.len() == 0 {
            m.remove(k)
        } else {
            m.insert(k, kept)
        }
    } else {
        m
    }
}

/// The subscribers registered under `k`, none when `k` is absent.
pub open spec fn subscribers_of(m: Map<Seq<char>, Seq<u64>>, k: Seq<char>) -> Seq<u64> {
    if m.contains_key(k) {
        m[k]
    } else {
        Seq::empty()
    }
}

/// The map that a list of distinct keys with their values stands for.
pub open spec fn map_of<K, V>(p: Seq<(K, V)>) -> Map<K, V> {
    Map::new(
        |k: K| exists|i: int| 0 <= i < p.len() && #[trigger] p[i].0 == k,
        |k: K| p[choose|i: int| 0 <= i < p.len() && #[trigger] p[i].0 == k].1,
    )
}

/// No key occurs twice in the list.
pub open spec fn distinct_keys<K, V>(p: Seq<(K, V)>) -> bool {
    forall|i: int, j: int| 0 <= i < p.len() && 0 <= j < p.len() && i != j ==> #[trigger] p[i].0 != #[trigger] p[j].0
}

proof fn lemma_map_of_at<K, V>(p: Seq<(K, V)>, i: int)
    requires
        distinct_keys(p),
        0 <= i < p.len(),
    ensures
        map_of(p).contains_key(p[i].0),
        map_of(p)[p[i].0] == p[i].1,
{
    let k = p[i].0;
    assert(map_of(p).contains_key(k));
    let j = choose|j: int| 0 <= j < p.len() && #[trigger] p[j].0 == k;
    assert(j == i);
}

proof fn lemma_map_of_update<K, V>(p: Seq<(K, V)>, i: int, v: V)
    requires
        distinct_keys(p),
        0 <= i < p.len(),
    ensures
        distinct_keys(p.update(i, (p[i].0, v))),
        map_of(p.update(i, (p[i].0, v))) == map_of(p).insert(p[i].0, v),
{
    let q = p.update(i, (p[i].0, v));
    assert forall|a: int, b: int| 0 <= a < q.len() && 0 <= b < q.len() && a != b implies #[trigger] q[a].0
        != #[trigger] q[b].0 by {
        assert(q[a].0 == p[a].0);
        assert(q[b].0 == p[b].0);
    }
    assert forall|k: K| #[trigger] map_of(q).contains_key(k) <==> map_of(p).insert(p[i].0, v).contains_key(k) by {
        if map_of(p).contains_key(k) {
            let j = choose|j: int| 0 <= j < p.len() && #[trigger] p[j].0 == k;
            assert(q[j].0 == k);
        }
        if map_of(q).contains_key(k) {
            let j = choose|j: int| 0 <= j < q.len() && #[trigger] q[j].0 == k;
            assert(p[j].0 == k);
        }
        if k == p[i].0 {
            assert(q[i].0 == k);
        }
    }
    assert forall|k: K| #[trigger] map_of(q).contains_key(k) implies map_of(q)[k] == map_of(p).insert(
        p[i].0,
        v,
    )[k] by {
        let j = choose|j: int| 0 <= j < q.len() && #[trigger] q[j].0 == k;
        lemma_map_of_at(q, j);
        if j != i {
            assert(p[j].0 == k);
            lemma_map_of_at(p, j);
        }
    }
    assert(map_of(q) =~= map_of(p).insert(p[i].0, v));
}

proof fn lemma_map_of_push<K, V>(p: Seq<(K, V)>, k: K, v: V)
    requires
        distinct_keys(p),
        !map_of(p).contains_key(k),
    ensures
        distinct_keys(p.push((k, v))),
        map_of(p.push((k, v))) == map_of(p).insert(k, v),
{
    let q = p.push((k, v));
    assert forall|a: int, b: int| 0 <= a < q.len() && 0 <= b < q.len() && a != b implies #[trigger] q[a].0
        != #[trigger] q[b].0 by {
        if a == p.len() {
            assert(q[b].0 == p[b].0);
            if p[b].0 == k {
                assert(map_of(p).contains_key(k));
            }
        } else if b == p.len() {
            assert(q[a].0 == p[a].0);
            if p[a].0 == k {
                assert(map_of(p).contains_key(k));
            }
        } else {
            assert(q[a].0 == p[a].0);
            assert(q[b].0 == p[b].0);
        }
    }
    assert forall|x: K| #[trigger] map_of(q).contains_key(x) <==> map_of(p).insert(k, v).contains_key(x) by {
        if map_of(p).contains_key(x) {
            let j = choose|j: int| 0 <= j < p.len() && #[trigger] p[j].0 == x;
            assert(q[j].0 == x);
        }
        if map_of(q).contains_key(x) {
            let j = choose|j: int| 0 <= j < q.len() && #[trigger] q[j].0 == x;
            if j < p.len() {
                assert(p[j].0 == x);
            }
        }
        if x == k {
            assert(q[p.len() as int].0 == x);
        }
    }
    assert forall|x: K| #[trigger] map_of(q).contains_key(x) implies map_of(q)[x] == map_of(p).insert(
        k,
        v,
    )[x] by {
        let j = choose|j: int| 0 <= j < q.len() && #[trigger] q[j].0 == x;
        lemma_map_of_at(q, j);
        if j < p.len() {
            assert(p[j].0 == x);
            lemma_map_of_at(p, j);
        }
    }
    assert(map_of(q) =~= map_of(p).insert(k, v));
}

proof fn lemma_map_of_remove<K, V>(p: Seq<(K, V)>, i: int)
    requires
        distinct_keys(p),
        0 <= i < p.len(),
    ensures
        distinct_keys(p.remove(i)),
        map_of(p.remove(i)) == map_of(p).remove(p[i].0),
{
    let q = p.remove(i);
    assert forall|a: int, b: int| 0 <= a < q.len() && 0 <= b < q.len() && a != b implies #[trigger] q[a].0
        != #[trigger] q[b].0 by {
        let a2 = if a < i { a } else { a + 1 };
        let b2 = if b < i { b } else { b + 1 };
        assert(q[a] == p[a2]);
        assert(q[b] == p[b2]);
    }
    assert forall|x: K| #[trigger] map_of(q).contains_key(x) <==> map_of(p).remove(p[i].0).contains_key(x) by {
        if map_of(q).contains_key(x) {
            let j = choose|j: int| 0 <= j < q.len() && #[trigger] q[j].0 == x;
            let j2 = if j < i { j } else { j + 1 };
            assert(q[j] == p[j2]);
            assert(p[j2].0 == x);
            assert(p[j2].0 != p[i].0);
        }
        if map_of(p).remove(p[i].0).contains_key(x) {
            let j = choose|j: int| 0 <= j < p.len() && #[trigger] p[j].0 == x;
            assert(j != i);
            let j2 = if j < i { j } else { j - 1 };
            assert(q[j2] == p[j]);
            assert(q[j2].0 == x);
        }
    }
    assert forall|x: K| #[trigger] map_of(q).contains_key(x) implies map_of(q)[x] == map_of(p).remove(
        p[i].0,
    )[x] by {
        let j = choose|j: int| 0 <= j < q.len() && #[trigger] q[j].0 == x;
        lemma_map_of_at(q, j);
        let j2 = if j < i { j } else { j + 1 };
        assert(q[j] == p[j2]);
        lemma_map_of_at(p, j2);
    }
    assert(map_of(q) =~= map_of(p).remove(p[i].0));
}

/// How many times `id` occurs in the list `s`.
pub open spec fn occurrences(s: Seq<u64>, id: u64) -> nat
    decreases s.len(),
{
    if s.len() == 0 {
        0
    } else {
        occurrences(s.drop_last(), id) + if s.last() == id {
            1nat
        } else {
            0nat
        }
    }
}

/// No key of the table has an empty list.
pub open spec fn no_empty_lists(m: Map<Seq<char>, Seq<u64>>) -> bool {
    forall|k: Seq<char>| #[trigger] m.contains_key(k) ==> m[k].len() > 0
}

/// Subscriber `id` is listed once under `key` when that is `Some`, and under
/// no other key.
pub open spec fn listed_under(m: Map<Seq<char>, Seq<u64>>, id: u64, key: Option<Seq<char>>) -> bool {
    &&& forall|k: Seq<char>|
        #[trigger] m.contains_key(k) ==> occurrences(m[k], id) == (if key == Some(k) {
            1nat
        } else {
            0nat
        })
    &&& key matches Some(p) ==> m.contains_key(p)
}

proof fn lemma_occurrences_push(s: Seq<u64>, x: u64, id: u64)
    ensures
        occurrences(s.push(x), id) == occurrences(s, id) + if x == id {
            1nat
        } else {
            0nat
        },
{
    assert(s.push(x).drop_last() =~= s);
}

proof fn lemma_occurrences_filter(s: Seq<u64>, id: u64, other: u64)
    ensures
        occurrences(s.filter(other_than(id)), id) == 0,
        other != id ==> occurrences(s.filter(other_than(id)), other) == occurrences(s, other),
    decreases s.len(),
{
    reveal(Seq::filter);
    if s.len() > 0 {
        lemma_occurrences_filter(s.drop_last(), id, other);
        let f = s.drop_last().filter(other_than(id));
        if s.last() != id {
            lemma_occurrences_push(f, s.last(), id);
            lemma_occurrences_push(f, s.last(), other);
        }
    }
}

proof fn lemma_occurrences_positive(s: Seq<u64>, id: u64)
    requires
        occurrences(s, id) > 0,
    ensures
        s.len() > 0,
{
}

/// Adding a subscriber keeps every list non-empty, lists the subscriber once
/// under the new key if it was listed nowhere, and leaves every other
/// subscriber's listing as it was.
pub proof fn lemma_add_lists(
    m: Map<Seq<char>, Seq<u64>>,
    k: Seq<char>,
    id: u64,
    other: u64,
    other_key: Option<Seq<char>>,
)
    ensures
        no_empty_lists(m) ==> no_empty_lists(add_subscriber(m, k, id)),
        listed_under(m, id, None) ==> listed_under(add_subscriber(m, k, id), id, Some(k)),
        other != id && listed_under(m, other, other_key) ==> listed_under(
            add_subscriber(m, k, id),
            other,
            other_key,
        ),
{
    let m2 = add_subscriber(m, k, id);
    if m.contains_key(k) {
        lemma_occurrences_push(m[k], id, id);
        lemma_occurrences_push(m[k], id, other);
    } else {
        lemma_occurrences_push(Seq::empty(), id, id);
        lemma_occurrences_push(Seq::empty(), id, other);
        assert(Seq::<u64>::empty().push(id) =~= seq![id]);
    }
    if listed_under(m, id, None) {
        assert forall|x: Seq<char>| #[trigger] m2.contains_key(x) implies occurrences(m2[x], id) == (if Some(
            k,
        ) == Some(x) {
            1nat
        } else {
            0nat
        }) by {
            if x != k {
                assert(m2[x] == m[x]);
            }
        }
    }
    if other != id && listed_under(m, other, other_key) {
        assert forall|x: Seq<char>| #[trigger] m2.contains_key(x) implies occurrences(m2[x], other) == (
        if other_key == Some(x) {
            1nat
        } else {
            0nat
        }) by {
            if x != k {
                assert(m2[x] == m[x]);
            } else if !m.contains_key(k) {
                assert(other_key != Some(k));
            }
        }
    }
}

/// Removing a subscriber from its key unlists it, keeps every list
/// non-empty, and leaves every other subscriber's listing as it was.
pub proof fn lemma_remove_unlists(
    m: Map<Seq<char>, Seq<u64>>,
    k: Seq<char>,
    id: u64,
    other: u64,
    other_key: Option<Seq<char>>,
)
    ensures
        no_empty_lists(m) ==> no_empty_lists(remove_subscriber(m, k, id)),
        listed_under(m, id, Some(k)) ==> listed_under(remove_subscriber(m, k, id), id, None),
        other != id && listed_under(m, other, other_key) ==> listed_under(
            remove_subscriber(m, k, id),
            other,
            other_key,
        ),
{
    let m2 = remove_subscriber(m, k, id);
    if m.contains_key(k) {
        lemma_occurrences_filter(m[k], id, other);
        let kept = m[k].filter(other_than(id));
        if listed_under(m, id, Some(k)) {
            assert forall|x: Seq<char>| #[trigger] m2.contains_key(x) implies occurrences(m2[x], id)
                == 0 by {
                if x != k {
                    assert(m2[x] == m[x]);
                    assert(Some(k) != Some(x));
                }
            }
        }
        if other != id && listed_under(m, other, other_key) {
            if other_key == Some(k) {
                lemma_occurrences_positive(kept, other);
            }
            assert forall|x: Seq<char>| #[trigger] m2.contains_key(x) implies occurrences(
                m2[x],
                other,
            ) == (if other_key == Some(x) {
                1nat
            } else {
                0nat
            }) by {
                if x != k {
                    assert(m2[x] == m[x]);
                }
            }
        }
    }
}

/// Every subscriber listed in `m` is numbered at most `n`.
pub open spec fn numbered_at_most(m: Map<Seq<char>, Seq<u64>>, n: u64) -> bool {
    forall|k: Seq<char>, x: u64| #![trigger m[k].contains(x)] m.contains_key(k) && m[k].contains(x) ==> x <= n
}

proof fn lemma_occurrences_absent(s: Seq<u64>, id: u64)
    requires
        !s.contains(id),
    ensures
        occurrences(s, id) == 0,
    decreases s.len(),
{
    if s.len() > 0 {
        assert(!s.drop_last().contains(id)) by {
            if s.drop_last().contains(id) {
                let j = choose|j: int| 0 <= j < s.drop_last().len() && s.drop_last()[j] == id;
                assert(s[j] == id);
            }
        }
        lemma_occurrences_absent(s.drop_last(), id);
        assert(s[s.len() - 1] != id);
    }
}

/// A subscriber numbered above every listed one is listed nowhere.
pub proof fn lemma_above_unlisted(m: Map<Seq<char>, Seq<u64>>, n: u64, id: u64)
    requires
        numbered_at_most(m, n),
        id > n,
    ensures
        listed_under(m, id, None),
{
    assert forall|k: Seq<char>| #[trigger] m.contains_key(k) implies occurrences(m[k], id) == 0 by {
        if m[k].contains(id) {
            assert(id <= n);
        }
        lemma_occurrences_absent(m[k], id);
    }
}

proof fn lemma_add_numbered(m: Map<Seq<char>, Seq<u64>>, k: Seq<char>, id: u64, n: u64)
    requires
        numbered_at_most(m, n),
        id <= n,
    ensures
        numbered_at_most(add_subscriber(m, k, id), n),
{
    let m2 = add_subscriber(m, k, id);
    assert forall|k2: Seq<char>, x: u64| m2.contains_key(k2) && #[trigger] m2[k2].contains(x) implies x <= n by {
        if k2 == k {
            let j = choose|j: int| 0 <= j < m2[k2].len() && m2[k2][j] == x;
            if m.contains_key(k) && j < m[k].len() {
                assert(m[k][j] == x);
                assert(m[k].contains(x));
            }
        } else {
            assert(m2[k2] == m[k2]);
        }
    }
}

proof fn lemma_remove_numbered(m: Map<Seq<char>, Seq<u64>>, k: Seq<char>, id: u64, n: u64)
    requires
        numbered_at_most(m, n),
    ensures
        numbered_at_most(remove_subscriber(m, k, id), n),
{
    let m2 = remove_subscriber(m, k, id);
    assert forall|k2: Seq<char>, x: u64| m2.contains_key(k2) && #[trigger] m2[k2].contains(x) implies x <= n by {
        if k2 == k {
            let f = m[k].filter(other_than(id));
            assert(m2[k2] == f);
            m[k].lemma_filter_contains_rev(other_than(id), x);
        } else {
            assert(m2[k2] == m[k2]);
        }
    }
}

/// The subscribers registered under one public key.
struct Subscription {
    pubkey: String,
    ids: Vec<u64>,
}

/// The relay's subscription table. It also hands out the numbers that name
/// subscribers, each above every number it has handed out or seen listed.
pub struct SubscriberTable {
    entries: Vec<Subscription>,
    highest: u64,
}

/// Key and subscriber list of each entry.
spec fn entry_pairs(entries: Seq<Subscription>) -> Seq<(Seq<char>, Seq<u64>)> {
    entries.map_values(|e: Subscription| (e.pubkey@, e.ids@))
}

impl SubscriberTable {
    /// Key and subscriber list of each entry, in table order.
    pub closed spec fn pairs(&self) -> Seq<(Seq<char>, Seq<u64>)> {
        entry_pairs(self.entries@)
    }

    /// The highest subscriber number handed out or registered so far.
    pub closed spec fn highest_channel(&self) -> u64 {
        self.highest
    }

    #[verifier::type_invariant]
    closed spec fn well_formed(&self) -> bool {
        &&& distinct_keys(self.pairs())
        &&& forall|i: int| 0 <= i < self.pairs().len() ==> #[trigger] self.pairs()[i].1.len() > 0
        &&& numbered_at_most(map_of(self.pairs()), self.highest)
    }

    /// An empty table that has handed out no number.
    pub fn new() -> (t: Self)
        ensures
            t@ == Map::<Seq<char>, Seq<u64>>::empty(),
            no_empty_lists(t@),
            t.highest_channel() == 0,
    {
        let t = SubscriberTable { entries: Vec::new(), highest: 0 };
        assert(t.pairs() =~= Seq::<(Seq<char>, Seq<u64>)>::empty());
        assert(map_of(t.pairs()) =~= Map::<Seq<char>, Seq<u64>>::empty());
        assert(t@ =~= Map::<Seq<char>, Seq<u64>>::empty());
        t
    }

    fn find(&self, pubkey: &String) -> (r: Option<usize>)
        ensures
            match r {
                Some(i) => i < self.pairs().len() && self.pairs()[i as int].0 == pubkey@,
                None => !self@.contains_key(pubkey@),
            },
    {
        let mut i: usize = 0;
        while i < self.entries.len()
            invariant
                i <= self.entries@.len(),
                forall|j: int| 0 <= j < i ==> self.entries@[j].pubkey@ != pubkey@,
            decreases self.entries@.len() - i,
        {
            if self.entries[i].pubkey == *pubkey {
                return Some(i);
            }
            i += 1;
        }
        assert(!self@.contains_key(pubkey@)) by {
            if self@.contains_key(pubkey@) {
                let j = choose|j: int| 0 <= j < self.pairs().len() && #[trigger] self.pairs()[j].0 == pubkey@;
                assert(self.entries@[j].pubkey@ == pubkey@);
            }
        }
        None
    }

    proof fn lemma_lists_nonempty(&self)
        requires
            self.well_formed(),
        ensures
            no_empty_lists(self@),
    {
        assert forall|k: Seq<char>| #[trigger] self@.contains_key(k) implies self@[k].len() > 0 by {
            let j = choose|j: int| 0 <= j < self.pairs().len() && #[trigger] self.pairs()[j].0 == k;
            lemma_map_of_at(self.pairs(), j);
        }
    }

    /// A number for a new subscriber, listed nowhere and above every number
    /// handed out before; `None` once every number is spent.
    pub fn new_channel(&mut self) -> (r: Option<u64>)
        ensures
            final(self)@ == old(self)@,
            old(self).highest_channel() < u64::MAX ==> {
                &&& r == Some((old(self).highest_channel() + 1) as u64)
                &&& final(self).highest_channel() == old(self).highest_channel() + 1
            },
            old(self).highest_channel() == u64::MAX ==> r is None && final(self).highest_channel()
                == old(self).highest_channel(),
            r matches Some(id) ==> listed_under(final(self)@, id, None),
    {
        proof {
            use_type_invariant(&*self);
        }
        if self.highest == u64::MAX {
            return None;
        }
        self.highest = self.highest + 1;
        let id = self.highest;
        proof {
            use_type_invariant(&*self);
            lemma_above_unlisted(self@, (id - 1) as u64, id);
        }
        Some(id)
    }

    /// Registers subscriber `id` under `pubkey`.
    pub fn subscribe(&mut self, pubkey: String, id: u64)
        ensures
            final(self)@ == add_subscriber(old(self)@, pubkey@, id),
            no_empty_lists(final(self)@),
            final(self).highest_channel() == (if id > old(self).highest_channel() {
                id
            } else {
                old(self).highest_channel()
            }),
    {
        proof {
            use_type_invariant(&*self);
        }
        if id > self.highest {
            self.highest = id;
        }
        let ghost p = self.pairs();
        let ghost k = pubkey@;
        match self.find(&pubkey) {
            Some(i) => {
                let mut ids = self.entries[i].ids.clone();
                assert(ids@ =~= p[i as int].1);
                ids.push(id);
                let mut entries: Vec<Subscription> = Vec::new();
                std::mem::swap(&mut entries, &mut self.entries);
                entries[i] = Subscription { pubkey, ids };
                proof {
                    assert(entry_pairs(entries@) =~= p.update(i as int, (p[i as int].0, p[i as int].1.push(id))));
                    lemma_map_of_update(p, i as int, p[i as int].1.push(id));
                    lemma_map_of_at(p, i as int);
                    lemma_add_numbered(map_of(p), k, id, self.highest);
                    let q = entry_pairs(entries@);
                    assert forall|j: int| 0 <= j < q.len() implies #[trigger] q[j].1.len() > 0 by {
                        if j != i {
                            assert(q[j] == p[j]);
                        }
                    }
                }
                self.entries = entries;
            },
            None => {
                let mut ids: Vec<u64> = Vec::new();
                ids.push(id);
                let mut entries: Vec<Subscription> = Vec::new();
                std::mem::swap(&mut entries, &mut self.entries);
                entries.push(Subscription { pubkey, ids });
                proof {
                    assert(entry_pairs(entries@) =~= p.push((k, seq![id])));
                    lemma_map_of_push(p, k, seq![id]);
                    lemma_add_numbered(map_of(p), k, id, self.highest);
                    let q = entry_pairs(entries@);
                    assert forall|j: int| 0 <= j < q.len() implies #[trigger] q[j].1.len() > 0 by {
                        if j < p.len() {
                            assert(q[j] == p[j]);
                        }
                    }
                }
                self.entries = entries;
            },
        }
        proof {
            use_type_invariant(&*self);
            self.lemma_lists_nonempty();
        }
    }

    /// Removes subscriber `id` from `pubkey`, and `pubkey` when no one is left.
    pub fn unsubscribe(&mut self, pubkey: &String, id: u64)
        ensures
            final(self)@ == remove_subscriber(old(self)@, pubkey@, id),
            no_empty_lists(final(self)@),
            final(self).highest_channel() == old(self).highest_channel(),
    {
        proof {
            use_type_invariant(&*self);
        }
        let ghost p = self.pairs();
        match self.find(pubkey) {
            None => {},
            Some(i) => {
                proof {
                    lemma_map_of_at(p, i as int);
                }
                let kept = keep_other_than(&self.entries[i].ids, id);
                let mut entries: Vec<Subscription> = Vec::new();
                std::mem::swap(&mut entries, &mut self.entries);
                if kept.len() == 0 {
                    entries.remove(i);
                    proof {
                        assert(entry_pairs(entries@) =~= p.remove(i as int));
                        lemma_map_of_remove(p, i as int);
                        lemma_remove_numbered(map_of(p), pubkey@, id, self.highest);
                        let q = entry_pairs(entries@);
                        assert forall|j: int| 0 <= j < q.len() implies #[trigger] q[j].1.len() > 0 by {
                            let j2 = if j < i { j } else { j + 1 };
                            assert(q[j] == p[j2]);
                        }
                    }
                } else {
                    let key = pubkey.clone();
                    entries[i] = Subscription { pubkey: key, ids: kept };
                    proof {
                        let v = p[i as int].1.filter(other_than(id));
                        assert(entry_pairs(entries@) =~= p.update(i as int, (p[i as int].0, v)));
                        lemma_map_of_update(p, i as int, v);
                        lemma_remove_numbered(map_of(p), pubkey@, id, self.highest);
                        let q = entry_pairs(entries@);
                        assert forall|j: int| 0 <= j < q.len() implies #[trigger] q[j].1.len() > 0 by {
                            if j != i {
                                assert(q[j] == p[j]);
                            }
                        }
                    }
                }
                self.entries = entries;
            },
        }
        proof {
            use_type_invariant(&*self);
            self.lemma_lists_nonempty();
        }
    }

    /// The subscribers registered under `pubkey`, in the order they came.
    pub fn subscribers(&self, pubkey: &String) -> (r: Vec<u64>)
        ensures
            r@ == subscribers_of(self@, pubkey@),
    {
        proof {
            use_type_invariant(self);
        }
        match self.find(pubkey) {
            None => Vec::new(),
            Some(i) => {
                proof {
                    lemma_map_of_at(self.pairs(), i as int);
                }
                let r = self.entries[i].ids.clone();
                assert(r@ =~= self.entries@[i as int].ids@);
                r
            },
        }
    }
}

impl View for SubscriberTable {
    type V = Map<Seq<char>, Seq<u64>>;

    closed spec fn view(&self) -> Map<Seq<char>, Seq<u64>> {
        map_of(self.pairs())
    }
}

/// The subscribers of `ids` other than `id`, in their order.
fn keep_other_than(ids: &Vec<u64>, id: u64) -> (r: Vec<u64>)
    ensures
        r@ == ids@.filter(other_than(id)),
{
    let mut r: Vec<u64> = Vec::new();
    let mut i: usize = 0;
    while i < ids.len()
        invariant
            i <= ids@.len(),
            r@ == ids@.subrange(0, i as int).filter(other_than(id)),
        decreases ids@.len() - i,
    {
        proof {
            let pre = ids@.subrange(0, i as int + 1);
            assert(pre.drop_last() =~= ids@.subrange(0, i as int));
            assert(pre.last() == ids@[i as int]);
            reveal(Seq::filter);
        }
        if ids[i] != id {
            r.push(ids[i]);
        }
        i += 1;
    }
    assert(ids@.subrange(0, ids@.len() as int) =~= ids@);
    r
}

} // verus!
