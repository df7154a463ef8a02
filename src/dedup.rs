use vstd::prelude::*;

use crate::event::EventWithId;

verus! {

pub open spec fn id_of(e: EventWithId) -> Seq<char> {
    e.id@
}

/// What one pass of the delivery filter yields, starting from the set `seen`
/// of ids already delivered: the events to deliver, in input order, and the
/// set of delivered ids afterwards. An event is delivered when its id is in
/// neither `seen` nor an earlier event of the same pass.
pub open spec fn accept_spec(seen: Set<Seq<char>>, events: Seq<EventWithId>) -> (Seq<
    EventWithId,
>, Set<Seq<char>>)
    decreases events.len(),
{
    if events.len() == 0 {
        (Seq::empty(), seen)
    } else {
        let before = accept_spec(seen, events.drop_last());
        let e = events.last();
        if before.1.contains(e.id@) {
            before
        } else {
            (before.0.push(e), before.1.insert(e.id@))
        }
    }
}

/// Running the delivery filter over `first` and then, from where it left off, over
/// `second` is the same as one run over `first + second`.
pub proof fn lemma_accept_append(
    seen: Set<Seq<char>>,
    first: Seq<EventWithId>,
    second: Seq<EventWithId>,
)
    ensures
        ({
            let one = accept_spec(seen, first);
            let two = accept_spec(one.1, second);
            accept_spec(seen, first + second) == (one.0 + two.0, two.1)
        }),
    decreases second.len(),
{
    let one = accept_spec(seen, first);
    if second.len() == 0 {
        assert(first + second =~= first);
        assert(one.0 + Seq::<EventWithId>::empty() =~= one.0);
    } else {
        lemma_accept_append(seen, first, second.drop_last());
        assert((first + second).drop_last() =~= first + second.drop_last());
        assert((first + second).last() == second.last());
        let two = accept_spec(one.1, second.drop_last());
        assert((one.0 + two.0).push(second.last()) =~= one.0 + two.0.push(second.last()));
    }
}

/// What one run of the delivery filter guarantees: the delivered ids are pairwise
/// distinct and were not in `seen`; the ids recorded afterwards are those of
/// `seen` and of the input; and every input id that was not in `seen` is
/// delivered.
pub proof fn lemma_accept_delivers_once(seen: Set<Seq<char>>, events: Seq<EventWithId>)
    ensures
        ({
            let (kept, after) = accept_spec(seen, events);
            &&& forall|i: int, j: int|
                0 <= i < j < kept.len() ==> kept[i].id@ != kept[j].id@
            &&& forall|i: int| 0 <= i < kept.len() ==> !seen.contains(#[trigger] kept[i].id@)
            &&& forall|i: int| 0 <= i < kept.len() ==> after.contains(#[trigger] kept[i].id@)
            &&& forall|x: Seq<char>|
                #[trigger] after.contains(x) <==> seen.contains(x) || exists|i: int|
                    0 <= i < events.len() && events[i].id@ == x
            &&& forall|x: Seq<char>|
                #[trigger] after.contains(x) && !seen.contains(x) ==> exists|j: int|
                    0 <= j < kept.len() && kept[j].id@ == x
        }),
    decreases events.len(),
{
    if events.len() > 0 {
        let rest = events.drop_last();
        let e = events.last();
        lemma_accept_delivers_once(seen, rest);
        let before = accept_spec(seen, rest);
        let (kept, after) = accept_spec(seen, events);
        assert forall|x: Seq<char>| after.contains(x) <==> seen.contains(x) || exists|i: int|
            0 <= i < events.len() && events[i].id@ == x by {
            if exists|i: int| 0 <= i < rest.len() && rest[i].id@ == x {
                let i = choose|i: int| 0 <= i < rest.len() && rest[i].id@ == x;
                assert(events[i].id@ == x);
            }
            if exists|i: int| 0 <= i < events.len() && events[i].id@ == x {
                let i = choose|i: int| 0 <= i < events.len() && events[i].id@ == x;
                if i < rest.len() {
                    assert(rest[i].id@ == x);
                }
            }
        }
        if !before.1.contains(e.id@) {
            assert(kept == before.0.push(e));
            assert forall|x: Seq<char>| after.contains(x) && !seen.contains(x) implies exists|
                j: int,
            | 0 <= j < kept.len() && kept[j].id@ == x by {
                if x == e.id@ {
                    assert(kept[kept.len() - 1].id@ == x);
                } else {
                    let j = choose|j: int| 0 <= j < before.0.len() && before.0[j].id@ == x;
                    assert(kept[j].id@ == x);
                }
            }
            assert forall|i: int| 0 <= i < kept.len() implies after.contains(
                #[trigger] kept[i].id@,
            ) by {
                if i < before.0.len() {
                    assert(before.1.contains(before.0[i].id@));
                }
            }
            assert forall|i: int| 0 <= i < kept.len() implies !seen.contains(
                #[trigger] kept[i].id@,
            ) by {
                if i < before.0.len() {
                    assert(!seen.contains(before.0[i].id@));
                } else {
                    assert(kept[i] == e);
                }
            }
            assert forall|i: int, j: int| 0 <= i < j < kept.len() implies kept[i].id@
                != kept[j].id@ by {
                if j == kept.len() - 1 {
                    assert(before.1.contains(before.0[i].id@));
                } else {
                    assert(before.0[i].id@ != before.0[j].id@);
                }
            }
        }
    }
}

/// Deduplicating a list in two consecutive calls, first on one half and then
/// on the other, delivers each id that was not seen before exactly once
/// across both calls, and nothing else.
pub proof fn lemma_accept_halves_once(
    seen: Set<Seq<char>>,
    first: Seq<EventWithId>,
    second: Seq<EventWithId>,
)
    ensures
        ({
            let one = accept_spec(seen, first);
            let two = accept_spec(one.1, second);
            let delivered = one.0 + two.0;
            let all = first + second;
            &&& forall|i: int, j: int|
                0 <= i < j < delivered.len() ==> delivered[i].id@ != delivered[j].id@
            &&& forall|i: int|
                0 <= i < delivered.len() ==> !seen.contains(#[trigger] delivered[i].id@)
            &&& forall|i: int|
                0 <= i < all.len() && !seen.contains(#[trigger] all[i].id@) ==> exists|j: int|
                    0 <= j < delivered.len() && delivered[j].id@ == all[i].id@
        }),
{
    lemma_accept_append(seen, first, second);
    let all = first + second;
    lemma_accept_delivers_once(seen, all);
    let (kept, after) = accept_spec(seen, all);
    assert forall|i: int| 0 <= i < all.len() && !seen.contains(#[trigger] all[i].id@) implies exists|
        j: int,
    | 0 <= j < kept.len() && kept[j].id@ == all[i].id@ by {
        assert(after.contains(all[i].id@));
    }
}

/// The persisted set of ids that a source has already delivered.
pub struct DedupStore {
    ids: Vec<String>,
}

impl View for DedupStore {
    type V = Set<Seq<char>>;

    closed spec fn view(&self) -> Set<Seq<char>> {
        self.ids@.map_values(|s: String| s@).to_set()
    }
}

impl DedupStore {
    /// No id is held twice.
    pub closed spec fn wf(&self) -> bool {
        self.ids@.map_values(|s: String| s@).no_duplicates()
    }

    /// An empty store.
    pub fn new() -> (r: DedupStore)
        ensures
            r.wf(),
            r@ == Set::<Seq<char>>::empty(),
    {
        let r = DedupStore { ids: Vec::new() };
        assert(r.ids@.map_values(|s: String| s@) =~= Seq::<Seq<char>>::empty());
        r
    }

    /// Whether `id` has been delivered before.
    pub fn contains(&self, id: &String) -> (r: bool)
        ensures
            r == self@.contains(id@),
    {
        let ghost views = self.ids@.map_values(|s: String| s@);
        let mut i: usize = 0;
        while i < self.ids.len()
            invariant
                i <= self.ids.len(),
                views == self.ids@.map_values(|s: String| s@),
                forall|j: int| 0 <= j < i ==> views[j] != id@,
            decreases self.ids.len() - i,
        {
            if self.ids[i] == *id {
                assert(views[i as int] == id@);
                return true;
            }
            i = i + 1;
        }
        assert(!views.contains(id@));
        false
    }

    /// Records `id`; returns whether it was new.
    pub fn insert(&mut self, id: String) -> (r: bool)
        requires
            old(self).wf(),
        ensures
            final(self).wf(),
            r == !old(self)@.contains(id@),
            final(self)@ == old(self)@.insert(id@),
    {
        if self.contains(&id) {
            assert(self@.insert(id@) =~= self@);
            false
        } else {
            let ghost before = self.ids@.map_values(|s: String| s@);
            self.ids.push(id);
            proof {
                let after = self.ids@.map_values(|s: String| s@);
                assert(after =~= before.push(id@));
                assert(after.to_set() =~= before.to_set().insert(id@)) by {
                    assert forall|x: Seq<char>| after.contains(x) <==> before.contains(x) || x
                        == id@ by {
                        if after.contains(x) {
                            let k = choose|k: int| 0 <= k < after.len() && after[k] == x;
                            if k < before.len() {
                                assert(before[k] == x);
                            }
                        }
                        if before.contains(x) {
                            let k = choose|k: int| 0 <= k < before.len() && before[k] == x;
                            assert(after[k] == x);
                        }
                        if x == id@ {
                            assert(after[before.len() as int] == x);
                        }
                    }
                }
            }
            true
        }
    }

    /// A store holding the given ids; repeats are held once.
    pub fn from_ids(ids: Vec<String>) -> (r: DedupStore)
        ensures
            r.wf(),
            r@ == ids@.map_values(|s: String| s@).to_set(),
    {
        let ghost all = ids@.map_values(|s: String| s@);
        let mut store = DedupStore::new();
        for id in it: ids.into_iter()
            invariant
                it.seq() == ids@,
                all == ids@.map_values(|s: String| s@),
                store.wf(),
                store@ == all.take(it.index() as int).to_set(),
        {
            let ghost i = it.index() as int;
            proof {
                assert(all.take(i + 1) =~= all.take(i).push(id@));
                assert(all.take(i + 1).to_set() =~= all.take(i).to_set().insert(id@)) by {
                    let a = all.take(i);
                    let b = all.take(i + 1);
                    assert forall|x: Seq<char>| b.contains(x) <==> a.contains(x) || x == id@ by {
                        if b.contains(x) {
                            let k = choose|k: int| 0 <= k < b.len() && b[k] == x;
                            if k < a.len() {
                                assert(a[k] == x);
                            }
                        }
                        if a.contains(x) {
                            let k = choose|k: int| 0 <= k < a.len() && a[k] == x;
                            assert(b[k] == x);
                        }
                        if x == id@ {
                            assert(b[i] == x);
                        }
                    }
                }
            }
            store.insert(id);
        }
        assert(all.take(all.len() as int) =~= all);
        store
    }

    /// The ids held, each once, for persisting.
    pub fn to_vec(&self) -> (r: Vec<String>)
        requires
            self.wf(),
        ensures
            r@.map_values(|s: String| s@).to_set() == self@,
            r@.map_values(|s: String| s@).no_duplicates(),
    {
        let mut r: Vec<String> = Vec::new();
        let mut i: usize = 0;
        while i < self.ids.len()
            invariant
                i <= self.ids.len(),
                r@ == self.ids@.take(i as int),
            decreases self.ids.len() - i,
        {
            r.push(self.ids[i].clone());
            assert(r@ =~= self.ids@.take(i + 1));
            i = i + 1;
        }
        assert(r@ =~= self.ids@);
        r
    }

    /// The delivery filter: keeps, in order, the events whose id was not
    /// delivered before, neither in an earlier cycle nor earlier in `events`,
    /// and records the ids of those it keeps.
    pub fn accept(&mut self, events: Vec<EventWithId>) -> (r: Vec<EventWithId>)
        requires
            old(self).wf(),
        ensures
            final(self).wf(),
            (r@, final(self)@) == accept_spec(old(self)@, events@),
    {
        let ghost seen = self@;
        let ghost all = events@;
        let mut out: Vec<EventWithId> = Vec::new();
        for e in it: events.into_iter()
            invariant
                it.seq() == all,
                self.wf(),
                (out@, self@) == accept_spec(seen, all.take(it.index() as int)),
        {
            let ghost i = it.index() as int;
            proof {
                assert(all.take(i + 1).drop_last() =~= all.take(i));
                assert(all.take(i + 1).last() == e);
            }
            if self.insert(e.id.clone()) {
                out.push(e);
            }
        }
        assert(all.take(all.len() as int) =~= all);
        out
    }

    /// The number of ids held.
    pub fn len(&self) -> (r: usize)
        requires
            self.wf(),
        ensures
            r == self@.len(),
    {
        proof {
            self.ids@.map_values(|s: String| s@).unique_seq_to_set();
        }
        self.ids.len()
    }
}

} // verus!
