//! A set of peer public keys, as counted by the relay statistics.

use vstd::prelude::*;

verus! {

/// The distinct public keys seen by the relay, in the order first seen.
pub struct PeerSet {
    names: Vec<String>,
}

impl PeerSet {
    /// The stored keys, as character sequences.
    pub closed spec fn names_view(&self) -> Seq<Seq<char>> {
        self.names@.map_values(|s: String| s@)
    }

    #[verifier::type_invariant]
    closed spec fn no_repeats(&self) -> bool {
        self.names_view().no_duplicates()
    }

    /// An empty set.
    pub fn new() -> (s: Self)
        ensures
            s@ == Set::<Seq<char>>::empty(),
    {
        let s = PeerSet { names: Vec::new() };
        assert(s.names_view().to_set() =~= Set::<Seq<char>>::empty());
        s
    }

    /// Number of distinct keys.
    pub fn len(&self) -> (n: usize)
        ensures
            n == self@.len(),
            self@.finite(),
    {
        proof {
            use_type_invariant(self);
            self.names_view().unique_seq_to_set();
            broadcast use vstd::seq_lib::seq_to_set_is_finite;
        }
        self.names.len()
    }

    /// Whether `name` is in the set.
    pub fn contains(&self, name: &String) -> (b: bool)
        ensures
            b == self@.contains(name@),
    {
        let mut i: usize = 0;
        while i < self.names.len()
            invariant
                i <= self.names@.len(),
                forall|j: int| 0 <= j < i ==> self.names@[j]@ != name@,
            decreases self.names@.len() - i,
        {
            if self.names[i] == *name {
                assert(self.names_view()[i as int] == name@);
                return true;
            }
            i += 1;
        }
        assert(!self.names_view().contains(name@)) by {
            if self.names_view().contains(name@) {
                let k = choose|k: int| 0 <= k < self.names_view().len() && self.names_view()[k] == name@;
                assert(self.names@[k]@ == name@);
            }
        }
        false
    }

    /// Adds `name`; a key already present is kept once.
    pub fn insert(&mut self, name: String)
        ensures
            final(self)@ == old(self)@.insert(name@),
    {
        proof {
            use_type_invariant(&*self);
        }
        if self.contains(&name) {
            assert(self@.insert(name@) =~= self@);
            return;
        }
        let ghost old_view = self.names_view();
        let ghost nv = name@;
        assert(!old_view.contains(nv));
        let mut names: Vec<String> = Vec::new();
        std::mem::swap(&mut names, &mut self.names);
        names.push(name);
        proof {
            let new_view = names@.map_values(|s: String| s@);
            assert(new_view =~= old_view.push(nv));
            assert forall|i: int, j: int|
                0 <= i < new_view.len() && 0 <= j < new_view.len() && i != j implies new_view[i]
                != new_view[j] by {
                if i == old_view.len() as int {
                    assert(old_view[j] == new_view[j]);
                } else if j == old_view.len() as int {
                    assert(old_view[i] == new_view[i]);
                }
            }
            assert(new_view.to_set() =~= old_view.to_set().insert(nv)) by {
                assert forall|x: Seq<char>| new_view.contains(x) implies #[trigger] old_view.to_set().insert(
                    nv,
                ).contains(x) by {
                    let k = choose|k: int| 0 <= k < new_view.len() && new_view[k] == x;
                    if k < old_view.len() {
                        assert(old_view[k] == x);
                    }
                }
                assert forall|x: Seq<char>| old_view.contains(x) implies #[trigger] new_view.contains(x) by {
                    let k = choose|k: int| 0 <= k < old_view.len() && old_view[k] == x;
                    assert(new_view[k] == x);
                }
                assert(new_view[old_view.len() as int] == nv);
            }
        }
        self.names = names;
    }

    /// A copy holding the same keys.
    pub fn copy(&self) -> (r: PeerSet)
        ensures
            r@ == self@,
    {
        let ghost nv = self.names_view();
        let mut r = PeerSet::new();
        let mut i: usize = 0;
        while i < self.names.len()
            invariant
                i <= self.names@.len(),
                nv == self.names_view(),
                r@ == nv.subrange(0, i as int).to_set(),
            decreases self.names@.len() - i,
        {
            let name = self.names[i].clone();
            r.insert(name);
            proof {
                lemma_prefix_step(nv, i as int);
            }
            i += 1;
        }
        assert(nv.subrange(0, nv.len() as int) =~= nv);
        r
    }

    /// Removes every key of `other`.
    pub fn remove_all(&mut self, other: &PeerSet)
        ensures
            final(self)@ == old(self)@.difference(other@),
    {
        let ghost nv = self.names_view();
        let mut kept = PeerSet::new();
        let mut i: usize = 0;
        while i < self.names.len()
            invariant
                i <= self.names@.len(),
                nv == self.names_view(),
                kept@ == nv.subrange(0, i as int).to_set().difference(other@),
            decreases self.names@.len() - i,
        {
            let name = &self.names[i];
            proof {
                lemma_prefix_step(nv, i as int);
            }
            if !other.contains(name) {
                kept.insert(name.clone());
                assert(kept@ =~= nv.subrange(0, i as int + 1).to_set().difference(other@));
            } else {
                assert(kept@ =~= nv.subrange(0, i as int + 1).to_set().difference(other@));
            }
            i += 1;
        }
        assert(nv.subrange(0, nv.len() as int) =~= nv);
        *self = kept;
    }

    /// Removes every key.
    pub fn clear(&mut self)
        ensures
            final(self)@ == Set::<Seq<char>>::empty(),
    {
        self.names = Vec::new();
        assert(self.names_view().to_set() =~= Set::<Seq<char>>::empty());
    }
}

/// The keys of a prefix one longer are those of the shorter prefix and the next key.
proof fn lemma_prefix_step(nv: Seq<Seq<char>>, i: int)
    requires
        0 <= i < nv.len(),
    ensures
        nv.subrange(0, i + 1).to_set() == nv.subrange(0, i).to_set().insert(nv[i]),
{
    assert(nv.subrange(0, i + 1) =~= nv.subrange(0, i).push(nv[i]));
    nv.subrange(0, i).lemma_push_to_set_commute(nv[i]);
}

impl View for PeerSet {
    type V = Set<Seq<char>>;

    closed spec fn view(&self) -> Set<Seq<char>> {
        self.names_view().to_set()
    }
}

} // verus!
