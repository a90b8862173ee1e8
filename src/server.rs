//! The bridge registry: the running bridges by identifier, at most one handle
//! for each. The control loop that owns it starts and stops the bridges' tasks;
//! this module keeps the books.
use vstd::prelude::*;

verus! {

/// The position of the last key equal to `k`, or -1.
pub open spec fn key_slot(ks: Seq<Seq<char>>, k: Seq<char>) -> int
    decreases ks.len(),
{
    if ks.len() == 0 {
        -1
    } else if ks.last() == k {
        ks.len() - 1
    } else {
        key_slot(ks.drop_last(), k)
    }
}

pub open spec fn keys_unique(ks: Seq<Seq<char>>) -> bool {
    forall|i: int, j: int| 0 <= i < j < ks.len() ==> ks[i] != ks[j]
}

proof fn lemma_key_slot(ks: Seq<Seq<char>>, k: Seq<char>)
    ensures
        -1 <= key_slot(ks, k) < ks.len(),
        key_slot(ks, k) >= 0 ==> ks[key_slot(ks, k)] == k,
        key_slot(ks, k) == -1 ==> forall|i: int| 0 <= i < ks.len() ==> ks[i] != k,
        keys_unique(ks) ==> forall|i: int| 0 <= i < ks.len() && ks[i] == k ==> key_slot(ks, k) == i,
    decreases ks.len(),
{
    if ks.len() > 0 {
        lemma_key_slot(ks.drop_last(), k);
        assert forall|i: int| 0 <= i < ks.len() - 1 implies ks.drop_last()[i] == ks[i] by {}
    }
}

/// The handles of the running bridges, by identifier. Each registration gets
/// a generation number, so that the end of a bridge that has since been
/// replaced does not take its successor out.
pub struct Registry<H> {
    ids: Vec<String>,
    handles: Vec<H>,
    gens: Vec<u64>,
    next_gen: u64,
}

impl<H> Registry<H> {
    pub closed spec fn keys(&self) -> Seq<Seq<char>> {
        self.ids@.map_values(|s: String| s@)
    }

    /// The registry is consistent: one handle and one generation per
    /// identifier, no identifier twice.
    pub closed spec fn wf(&self) -> bool {
        &&& self.ids@.len() == self.handles@.len()
        &&& self.ids@.len() == self.gens@.len()
        &&& keys_unique(self.keys())
    }

    /// The handle of each running bridge.
    pub closed spec fn bridges(&self) -> Map<Seq<char>, H> {
        Map::new(
            |k: Seq<char>| key_slot(self.keys(), k) >= 0,
            |k: Seq<char>| self.handles@[key_slot(self.keys(), k)],
        )
    }

    /// The generation of each running bridge.
    pub closed spec fn generations(&self) -> Map<Seq<char>, u64> {
        Map::new(
            |k: Seq<char>| key_slot(self.keys(), k) >= 0,
            |k: Seq<char>| self.gens@[key_slot(self.keys(), k)],
        )
    }

    /// The generation the next registration gets.
    pub closed spec fn next_generation(&self) -> u64 {
        self.next_gen
    }

    /// No bridge is running.
    pub fn new() -> (r: Self)
        ensures
            r.wf(),
            r.bridges() == Map::<Seq<char>, H>::empty(),
            r.generations() == Map::<Seq<char>, u64>::empty(),
            r.next_generation() == 0,
    {
        let r = Registry { ids: Vec::new(), handles: Vec::new(), gens: Vec::new(), next_gen: 0 };
        assert(r.keys() =~= Seq::<Seq<char>>::empty());
        assert(r.bridges() =~= Map::<Seq<char>, H>::empty());
        assert(r.generations() =~= Map::<Seq<char>, u64>::empty());
        r
    }

    fn find(&self, id: &String) -> (r: Option<usize>)
        requires
            self.wf(),
        ensures
            match r {
                Some(k) => key_slot(self.keys(), id@) == k as int && k < self.ids@.len(),
                None => key_slot(self.keys(), id@) == -1,
            },
    {
        let ghost v = self.keys();
        let mut j: usize = self.ids.len();
        assert(v.take(j as int) =~= v);
        while j > 0
            invariant
                j <= self.ids@.len(),
                v == self.keys(),
                key_slot(v, id@) == key_slot(v.take(j as int), id@),
            decreases j,
        {
            assert(v.take(j as int).drop_last() =~= v.take(j - 1));
            if self.ids[j - 1] == *id {
                return Some(j - 1);
            }
            j -= 1;
        }
        None
    }

    /// Whether a bridge of that identifier is registered.
    pub fn is_running(&self, id: &String) -> (r: bool)
        requires
            self.wf(),
        ensures
            r == self.bridges().contains_key(id@),
    {
        self.find(id).is_some()
    }

    /// Registers a started bridge under the next generation, which is handed
    /// back. A handle already registered under the same identifier is replaced,
    /// and handed back too, so that its task can be ended.
    pub fn start(&mut self, id: String, h: H) -> (r: (Option<H>, u64))
        requires
            old(self).wf(),
        ensures
            final(self).wf(),
            final(self).bridges() == old(self).bridges().insert(id@, h),
            final(self).generations() == old(self).generations().insert(
                id@,
                old(self).next_generation(),
            ),
            r.1 == old(self).next_generation(),
            r.0 == (if old(self).bridges().contains_key(id@) {
                Some(old(self).bridges()[id@])
            } else {
                None
            }),
            final(self).next_generation() == (if old(self).next_generation() < u64::MAX {
                (old(self).next_generation() + 1) as u64
            } else {
                old(self).next_generation()
            }),
    {
        let ghost ks = self.keys();
        let ghost before = self.bridges();
        let ghost gbefore = self.generations();
        let g = self.next_gen;
        if self.next_gen < u64::MAX {
            self.next_gen = self.next_gen + 1;
        }
        proof {
            lemma_key_slot(ks, id@);
        }
        match self.find(&id) {
            Some(k) => {
                let mut h = h;
                let ghost hv = h;
                self.handles.set_and_swap(k, &mut h);
                self.gens.set(k, g);
                assert(self.keys() == ks);
                assert forall|q: Seq<char>|
                    #[trigger] self.bridges().contains_key(q) == before.insert(
                        id@,
                        hv,
                    ).contains_key(q) && (self.bridges().contains_key(q) ==> self.bridges()[q]
                        == before.insert(id@, hv)[q] && self.generations()[q] == gbefore.insert(
                        id@,
                        g,
                    )[q]) by {
                    lemma_key_slot(ks, q);
                }
                assert(self.bridges() =~= before.insert(id@, hv));
                assert(self.generations() =~= gbefore.insert(id@, g));
                (Some(h), g)
            },
            None => {
                let ghost idv = id@;
                self.ids.push(id);
                self.handles.push(h);
                self.gens.push(g);
                let ghost ks2 = self.keys();
                assert(ks2 =~= ks.push(idv));
                assert(ks2.drop_last() =~= ks);
                assert forall|q: Seq<char>|
                    #[trigger] self.bridges().contains_key(q) == before.insert(
                        idv,
                        h,
                    ).contains_key(q) && (self.bridges().contains_key(q) ==> self.bridges()[q]
                        == before.insert(idv, h)[q] && self.generations()[q] == gbefore.insert(
                        idv,
                        g,
                    )[q]) by {
                    lemma_key_slot(ks, q);
                    lemma_key_slot(ks2, q);
                }
                assert(self.bridges() =~= before.insert(idv, h));
                assert(self.generations() =~= gbefore.insert(idv, g));
                (None, g)
            },
        }
    }

    fn remove_at(&mut self, k: usize, id: &String) -> (r: H)
        requires
            old(self).wf(),
            k < old(self).ids@.len(),
            key_slot(old(self).keys(), id@) == k,
        ensures
            final(self).wf(),
            final(self).bridges() == old(self).bridges().remove(id@),
            final(self).generations() == old(self).generations().remove(id@),
            final(self).next_generation() == old(self).next_generation(),
            old(self).bridges().contains_key(id@),
            r == old(self).bridges()[id@],
    {
        let ghost ks = self.keys();
        let ghost before = self.bridges();
        let ghost gbefore = self.generations();
        proof {
            lemma_key_slot(ks, id@);
        }
        let _ = self.ids.remove(k);
        let h = self.handles.remove(k);
        let _ = self.gens.remove(k);
        let ghost ks2 = self.keys();
        assert(ks2 =~= ks.remove(k as int));
        assert(keys_unique(ks2)) by {
            assert forall|i: int, j: int| 0 <= i < j < ks2.len() implies ks2[i] != ks2[j] by {
                let i0 = if i < k {
                    i
                } else {
                    i + 1
                };
                let j0 = if j < k {
                    j
                } else {
                    j + 1
                };
                assert(ks2[i] == ks[i0] && ks2[j] == ks[j0]);
            }
        }
        assert forall|q: Seq<char>|
            #[trigger] self.bridges().contains_key(q) == before.remove(id@).contains_key(q) && (
            self.bridges().contains_key(q) ==> self.bridges()[q] == before.remove(id@)[q]
                && self.generations()[q] == gbefore.remove(id@)[q]) by {
            lemma_key_slot(ks, q);
            lemma_key_slot(ks2, q);
            if key_slot(ks, q) >= 0 && q != id@ {
                let j = key_slot(ks, q);
                let j2 = if j < k {
                    j
                } else {
                    j - 1
                };
                assert(ks2[j2] == q);
            }
            if key_slot(ks2, q) >= 0 {
                let j2 = key_slot(ks2, q);
                let j = if j2 < k {
                    j2
                } else {
                    j2 + 1
                };
                assert(ks[j] == q);
            }
        }
        assert(self.bridges() =~= before.remove(id@));
        assert(self.generations() =~= gbefore.remove(id@));
        h
    }

    /// Takes a bridge out of the registry, handing back its handle, or `None`
    /// where no bridge of that identifier is running.
    pub fn stop(&mut self, id: &String) -> (r: Option<H>)
        requires
            old(self).wf(),
        ensures
            final(self).wf(),
            final(self).bridges() == old(self).bridges().remove(id@),
            final(self).generations() == old(self).generations().remove(id@),
            final(self).next_generation() == old(self).next_generation(),
            r == (if old(self).bridges().contains_key(id@) {
                Some(old(self).bridges()[id@])
            } else {
                None
            }),
    {
        proof {
            lemma_key_slot(self.keys(), id@);
        }
        match self.find(id) {
            Some(k) => Some(self.remove_at(k, id)),
            None => {
                assert(self.bridges().remove(id@) =~= self.bridges());
                assert(self.generations().remove(id@) =~= self.generations());
                None
            },
        }
    }

    /// Takes out a bridge that has ended by itself: only where the bridge
    /// registered under `id` is of that generation. A bridge that has since
    /// been replaced leaves its successor in place.
    pub fn complete(&mut self, id: &String, generation: u64) -> (r: Option<H>)
        requires
            old(self).wf(),
        ensures
            final(self).wf(),
            final(self).next_generation() == old(self).next_generation(),
            if old(self).generations().contains_key(id@) && old(self).generations()[id@]
                == generation {
                &&& final(self).bridges() == old(self).bridges().remove(id@)
                &&& final(self).generations() == old(self).generations().remove(id@)
                &&& r == Some(old(self).bridges()[id@])
            } else {
                &&& final(self).bridges() == old(self).bridges()
                &&& final(self).generations() == old(self).generations()
                &&& r is None
            },
    {
        proof {
            lemma_key_slot(self.keys(), id@);
        }
        match self.find(id) {
            Some(k) => {
                if self.gens[k] == generation {
                    Some(self.remove_at(k, id))
                } else {
                    None
                }
            },
            None => None,
        }
    }
}

/// In terms of what `start` and `stop` state of the registry: a stop right
/// after a start of the same identifier hands back the handle just started and
/// leaves the bridges as a stop alone would; a stop of an identifier that is
/// not running hands back nothing and leaves the bridges unchanged.
pub proof fn lemma_start_then_stop<H>(reg: Registry<H>, id: Seq<char>, h: H, other: Seq<char>)
    requires
        !reg.bridges().contains_key(other),
    ensures
        reg.bridges().insert(id, h).contains_key(id),
        reg.bridges().insert(id, h)[id] == h,
        reg.bridges().insert(id, h).remove(id) == reg.bridges().remove(id),
        reg.bridges().remove(other) == reg.bridges(),
{
    assert(reg.bridges().insert(id, h).remove(id) =~= reg.bridges().remove(id));
    assert(reg.bridges().remove(other) =~= reg.bridges());
}

} // verus!
