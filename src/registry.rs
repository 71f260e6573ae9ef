use vstd::prelude::*;

verus! {

/// Live requests, keyed by correlation identifier, each holding the slot
/// through which its reply is handed over.
///
/// The entries are kept in a vector whose keys are pairwise distinct; the
/// ghost map mirrors it and is what the contracts speak of.
pub struct PendingRegistry<S> {
    entries: Vec<(String, S)>,
    contents: Ghost<Map<Seq<char>, S>>,
}

impl<S> View for PendingRegistry<S> {
    type V = Map<Seq<char>, S>;

    closed spec fn view(&self) -> Map<Seq<char>, S> {
        self.contents@
    }
}

impl<S> PendingRegistry<S> {
    /// The vector and the map agree, and no identifier occurs twice.
    pub closed spec fn wf(&self) -> bool {
        let es = self.entries@;
        let m = self.contents@;
        &&& forall|i: int, j: int|
            0 <= i < j < es.len() ==> (#[trigger] es[i]).0@ != (#[trigger] es[j]).0@
        &&& forall|i: int|
            0 <= i < es.len() ==> m.contains_key((#[trigger] es[i]).0@) && m[es[i].0@] == es[i].1
        &&& forall|k: Seq<char>|
            #[trigger] m.contains_key(k) ==> exists|i: int| 0 <= i < es.len() && (#[trigger] es[i]).0@ == k
        &&& m.dom().finite()
        &&& m.len() == es.len()
    }

    /// A well-formed registry holds finitely many identifiers.
    pub proof fn lemma_finite(&self)
        requires
            self.wf(),
        ensures
            self@.dom().finite(),
            self@.dom().len() == self@.len(),
    {
    }

    /// An empty registry.
    pub fn new() -> (r: Self)
        ensures
            r.wf(),
            r@ == Map::<Seq<char>, S>::empty(),
    {
        PendingRegistry { entries: Vec::new(), contents: Ghost(Map::empty()) }
    }

    /// The number of live identifiers.
    pub fn len(&self) -> (r: usize)
        requires
            self.wf(),
        ensures
            r == self@.len(),
    {
        self.entries.len()
    }

    /// Where `id` stands in the vector, if anywhere.
    fn position(&self, id: &String) -> (r: Option<usize>)
        requires
            self.wf(),
        ensures
            match r {
                Some(i) => i < self.entries@.len() && self.entries@[i as int].0@ == id@,
                None => !self@.contains_key(id@),
            },
    {
        let mut i: usize = 0;
        while i < self.entries.len()
            invariant
                self.wf(),
                i <= self.entries@.len(),
                forall|j: int| 0 <= j < i ==> (#[trigger] self.entries@[j]).0@ != id@,
            decreases self.entries@.len() - i,
        {
            if self.entries[i].0 == *id {
                return Some(i);
            }
            i = i + 1;
        }
        None
    }

    /// Whether `id` is live.
    pub fn contains(&self, id: &String) -> (r: bool)
        requires
            self.wf(),
        ensures
            r == self@.contains_key(id@),
    {
        self.position(id).is_some()
    }

    /// Removes `id` and hands back its slot, if it was live.
    pub fn take(&mut self, id: &String) -> (r: Option<S>)
        requires
            old(self).wf(),
        ensures
            final(self).wf(),
            final(self)@ == old(self)@.remove(id@),
            r == (if old(self)@.contains_key(id@) {
                Some(old(self)@[id@])
            } else {
                None
            }),
    {
        match self.position(id) {
            None => {
                assert(self@.remove(id@) =~= self@);
                None
            },
            Some(i) => {
                let ghost old_es = self.entries@;
                let ghost old_m = self.contents@;
                let (_, slot) = self.entries.remove(i);
                self.contents = Ghost(old_m.remove(id@));
                let ghost es = self.entries@;
                let ghost m = self.contents@;
                assert forall|a: int, b: int| 0 <= a < b < es.len() implies (#[trigger] es[a]).0@
                    != (#[trigger] es[b]).0@ by {
                    let oa = if a < i { a } else { a + 1 };
                    let ob = if b < i { b } else { b + 1 };
                    assert(es[a] == old_es[oa]);
                    assert(es[b] == old_es[ob]);
                }
                assert forall|a: int| 0 <= a < es.len() implies m.contains_key(
                    (#[trigger] es[a]).0@,
                ) && m[es[a].0@] == es[a].1 by {
                    let oa = if a < i { a } else { a + 1 };
                    assert(es[a] == old_es[oa]);
                    assert(old_es[oa].0@ != old_es[i as int].0@);
                }
                assert forall|k: Seq<char>| #[trigger] m.contains_key(k) implies exists|a: int|
                    0 <= a < es.len() && (#[trigger] es[a]).0@ == k by {
                    let oj = choose|j: int| 0 <= j < old_es.len() && (#[trigger] old_es[j]).0@ == k;
                    assert(oj != i);
                    let a = if oj < i { oj } else { oj - 1 };
                    assert(es[a] == old_es[oj]);
                }
                Some(slot)
            },
        }
    }

    /// Removes `id` if it is live; an absent identifier is no error.
    pub fn remove(&mut self, id: &String)
        requires
            old(self).wf(),
        ensures
            final(self).wf(),
            final(self)@ == old(self)@.remove(id@),
    {
        let _ = self.take(id);
    }

    /// Registers `slot` under `id`, replacing any slot already held there.
    pub fn insert(&mut self, id: String, slot: S)
        requires
            old(self).wf(),
            old(self)@.len() < usize::MAX,
        ensures
            final(self).wf(),
            final(self)@ == old(self)@.insert(id@, slot),
    {
        let _ = self.take(&id);
        let ghost before_es = self.entries@;
        let ghost before_m = self.contents@;
        let ghost k = id@;
        self.entries.push((id, slot));
        self.contents = Ghost(before_m.insert(k, slot));
        let ghost es = self.entries@;
        let ghost m = self.contents@;
        let ghost n = before_es.len() as int;
        assert forall|a: int, b: int| 0 <= a < b < es.len() implies (#[trigger] es[a]).0@
            != (#[trigger] es[b]).0@ by {
            assert(es[a] == before_es[a]);
            if b < n {
                assert(es[b] == before_es[b]);
            } else {
                assert(before_m.contains_key(before_es[a].0@));
            }
        }
        assert forall|a: int| 0 <= a < es.len() implies m.contains_key((#[trigger] es[a]).0@)
            && m[es[a].0@] == es[a].1 by {
            if a < n {
                assert(es[a] == before_es[a]);
                assert(before_m.contains_key(before_es[a].0@));
            }
        }
        assert forall|kk: Seq<char>| #[trigger] m.contains_key(kk) implies exists|a: int|
            0 <= a < es.len() && (#[trigger] es[a]).0@ == kk by {
            if kk == k {
                assert(es[n] == (id, slot));
            } else {
                let oj = choose|j: int| 0 <= j < before_es.len() && (#[trigger] before_es[j]).0@ == kk;
                assert(es[oj] == before_es[oj]);
            }
        }
        assert(m =~= old(self)@.insert(k, slot));
    }
}

/// What routing one inbound reply does to a registry: a reply whose
/// identifier is live removes that entry and yields its slot; any other
/// reply leaves the registry as it was and yields nothing.
pub open spec fn route<S>(m: Map<Seq<char>, S>, id: Option<Seq<char>>) -> (Map<Seq<char>, S>, Option<S>) {
    match id {
        Some(k) => if m.contains_key(k) {
            (m.remove(k), Some(m[k]))
        } else {
            (m, None)
        },
        None => (m, None),
    }
}

/// The view of an optional identifier.
pub open spec fn id_view(id: Option<String>) -> Option<Seq<char>> {
    match id {
        Some(s) => Some(s@),
        None => None,
    }
}

} // verus!
