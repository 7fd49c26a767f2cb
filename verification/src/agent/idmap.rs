//! Values kept by a save's id.

use vstd::prelude::*;

use crate::text::same;
#[allow(unused_imports)]
use crate::text::views;

verus! {

/// A value for each of some ids.
#[derive(Debug)]
pub struct IdMap<V> {
    entries: Vec<(String, V)>,
}

/// Where the id stands among the entries; `-1` when it does not.
spec fn place<V>(entries: Seq<(String, V)>, id: Seq<char>) -> int
    decreases entries.len(),
{
    if entries.len() == 0 {
        -1
    } else if entries.last().0@ == id {
        entries.len() - 1
    } else {
        place(entries.drop_last(), id)
    }
}

/// No id stands twice.
spec fn once<V>(entries: Seq<(String, V)>) -> bool {
    forall|i: int, j: int|
        0 <= i < j < entries.len() ==> (#[trigger] entries[i]).0@ != (#[trigger] entries[j]).0@
}

proof fn place_is_found<V>(entries: Seq<(String, V)>, id: Seq<char>)
    ensures
        -1 <= place(entries, id) < entries.len(),
        place(entries, id) >= 0 ==> entries[place(entries, id)].0@ == id,
        place(entries, id) < 0 ==> forall|i: int|
            0 <= i < entries.len() ==> (#[trigger] entries[i]).0@ != id,
    decreases entries.len(),
{
    if entries.len() > 0 && entries.last().0@ != id {
        place_is_found(entries.drop_last(), id);
        if place(entries, id) < 0 {
            assert forall|i: int| 0 <= i < entries.len() implies (#[trigger] entries[i]).0@
                != id by {
                if i < entries.len() - 1 {
                    assert(entries.drop_last()[i].0@ != id);
                }
            }
        }
    }
}

proof fn place_is<V>(entries: Seq<(String, V)>, i: int)
    requires
        once(entries),
        0 <= i < entries.len(),
    ensures
        place(entries, entries[i].0@) == i,
{
    place_is_found(entries, entries[i].0@);
}

impl<V> IdMap<V> {
    /// The values by id.
    pub closed spec fn view(&self) -> Map<Seq<char>, V> {
        Map::new(
            |id: Seq<char>| place(self.entries@, id) >= 0,
            |id: Seq<char>| self.entries@[place(self.entries@, id)].1,
        )
    }

    /// No id stands twice.
    pub closed spec fn wf(self) -> bool {
        once(self.entries@)
    }

    /// No ids.
    pub fn new() -> (r: Self)
        ensures
            r.wf(),
            r@ == Map::<Seq<char>, V>::empty(),
    {
        let r = IdMap { entries: Vec::new() };
        assert(r@ =~= Map::<Seq<char>, V>::empty());
        r
    }

    fn find(&self, id: &str) -> (r: Option<usize>)
        ensures
            r is None ==> place(self.entries@, id@) == -1,
            r matches Some(i) ==> {
                &&& i < self.entries@.len()
                &&& place(self.entries@, id@) == i
                &&& self.entries@[i as int].0@ == id@
            },
    {
        let mut i: usize = self.entries.len();
        assert(self.entries@.take(i as int) =~= self.entries@);
        while i > 0
            invariant
                i <= self.entries@.len(),
                place(self.entries@, id@) == place(self.entries@.take(i as int), id@),
            decreases i,
        {
            assert(self.entries@.take(i as int).drop_last() =~= self.entries@.take(i - 1));
            if same(self.entries[i - 1].0.as_str(), id) {
                return Some(i - 1);
            }
            i -= 1;
        }
        None
    }

    /// The id's value.
    pub fn get(&self, id: &str) -> (r: Option<&V>)
        ensures
            r is Some == self@.contains_key(id@),
            r is Some ==> *r->0 == self@[id@],
    {
        match self.find(id) {
            Some(i) => Some(&self.entries[i].1),
            None => None,
        }
    }

    /// Give the id a value, in place of any that it has.
    pub fn set(&mut self, id: &str, value: V)
        requires
            old(self).wf(),
        ensures
            final(self).wf(),
            final(self)@ == old(self)@.insert(id@, value),
    {
        let ghost before = self.entries@;
        match self.find(id) {
            Some(i) => {
                let key = self.entries[i].0.clone();
                self.entries.set(i, (key, value));
                proof {
                    let after = self.entries@;
                    assert forall|a: int, b: int| 0 <= a < b < after.len() implies (
                    #[trigger] after[a]).0@ != (#[trigger] after[b]).0@ by {
                        assert(before[a].0@ == after[a].0@ && before[b].0@ == after[b].0@);
                    }
                    assert forall|k: Seq<char>| #[trigger] place(after, k) == place(before, k) by {
                        place_is_found(before, k);
                        place_is_found(after, k);
                        if place(before, k) >= 0 {
                            let p = place(before, k);
                            assert(after[p].0@ == before[p].0@);
                            place_is(after, p);
                        } else if place(after, k) >= 0 {
                            let p = place(after, k);
                            assert(after[p].0@ == before[p].0@);
                        }
                    }
                    assert forall|k: Seq<char>| k != id@ && #[trigger] place(before, k)
                        >= 0 implies after[place(before, k)] == before[place(before, k)] by {
                        place_is_found(before, k);
                    }
                    assert(self@ =~= old(self)@.insert(id@, value));
                }
            },
            None => {
                self.entries.push((id.to_owned(), value));
                proof {
                    let after = self.entries@;
                    place_is_found(before, id@);
                    assert(after.drop_last() =~= before);
                    assert forall|a: int, b: int| 0 <= a < b < after.len() implies (
                    #[trigger] after[a]).0@ != (#[trigger] after[b]).0@ by {
                        assert(after[a] == before[a]);
                        if b < before.len() {
                            assert(after[b] == before[b]);
                        }
                    }
                    assert forall|k: Seq<char>| k != id@ implies #[trigger] place(after, k)
                        == place(before, k) by {
                        place_is_found(before, k);
                    }
                    assert forall|k: Seq<char>| #[trigger] place(before, k) >= 0 implies after[place(
                        before,
                        k,
                    )] == before[place(before, k)] by {
                        place_is_found(before, k);
                    }
                    assert(place(after, id@) == after.len() - 1);
                    assert(self@ =~= old(self)@.insert(id@, value));
                }
            },
        }
    }

    /// Give the id a value unless it has one.
    pub fn keep(&mut self, id: &str, value: V)
        requires
            old(self).wf(),
        ensures
            final(self).wf(),
            final(self)@ == (if old(self)@.contains_key(id@) {
                old(self)@
            } else {
                old(self)@.insert(id@, value)
            }),
    {
        if self.find(id).is_none() {
            self.set(id, value);
        }
    }

    /// Take the id's value out.
    pub fn remove(&mut self, id: &str) -> (r: Option<V>)
        requires
            old(self).wf(),
        ensures
            final(self).wf(),
            final(self)@ == old(self)@.remove(id@),
            r == (if old(self)@.contains_key(id@) {
                Some(old(self)@[id@])
            } else {
                None
            }),
    {
        let ghost before = self.entries@;
        match self.find(id) {
            Some(i) => {
                let taken = self.entries.remove(i);
                proof {
                    let after = self.entries@;
                    assert(after =~= before.remove(i as int));
                    assert forall|a: int, b: int| 0 <= a < b < after.len() implies (
                    #[trigger] after[a]).0@ != (#[trigger] after[b]).0@ by {
                        let x = if a < i { a } else { a + 1 };
                        let y = if b < i { b } else { b + 1 };
                        assert(before[x].0@ != before[y].0@);
                    }
                    place_is_found(before, id@);
                    assert forall|k: Seq<char>| k != id@ && place(before, k) >= 0 implies {
                        &&& #[trigger] place(after, k) >= 0
                        &&& after[place(after, k)] == before[place(before, k)]
                    } by {
                        place_is_found(before, k);
                        let p = place(before, k);
                        let q = if p < i { p } else { p - 1 };
                        assert(after[q] == before[p]);
                        place_is(after, q);
                    }
                    assert forall|k: Seq<char>| #[trigger] place(after, k) >= 0 implies k != id@
                        && place(before, k) >= 0 by {
                        place_is_found(after, k);
                        place_is_found(before, k);
                        let q = place(after, k);
                        let p = if q < i { q } else { q + 1 };
                        assert(after[q] == before[p]);
                        if k == id@ {
                            assert(before[p].0@ != before[i as int].0@);
                        }
                    }
                    assert(self@ =~= old(self)@.remove(id@));
                }
                Some(taken.1)
            },
            None => {
                assert(self@ =~= old(self)@.remove(id@));
                None
            },
        }
    }

    /// The ids, each once.
    pub fn ids(&self) -> (r: Vec<String>)
        requires
            self.wf(),
        ensures
            forall|id: Seq<char>| #[trigger] views(r@).contains(id) <==> self@.contains_key(id),
            views(r@).no_duplicates(),
    {
        let mut ids: Vec<String> = Vec::new();
        let mut i: usize = 0;
        while i < self.entries.len()
            invariant
                i <= self.entries@.len(),
                ids@.len() == i,
                forall|k: int| 0 <= k < i ==> (#[trigger] ids@[k])@ == self.entries@[k].0@,
            decreases self.entries.len() - i,
        {
            ids.push(self.entries[i].0.clone());
            i += 1;
        }
        proof {
            let e = self.entries@;
            assert forall|id: Seq<char>| #[trigger] views(ids@).contains(id) implies self@.contains_key(
                id,
            ) by {
                let k = choose|k: int| 0 <= k < views(ids@).len() && views(ids@)[k] == id;
                assert(ids@[k]@ == e[k].0@);
                place_is_found(e, id);
            }
            assert forall|id: Seq<char>| self@.contains_key(id) implies #[trigger] views(
                ids@,
            ).contains(id) by {
                place_is_found(e, id);
                let k = place(e, id);
                assert(ids@[k]@ == e[k].0@);
                assert(views(ids@)[k] == id);
            }
            assert forall|a: int, b: int|
                0 <= a < views(ids@).len() && 0 <= b < views(ids@).len() && a != b implies views(
                ids@,
            )[a] != views(ids@)[b] by {
                assert(ids@[a]@ == e[a].0@ && ids@[b]@ == e[b].0@);
                if a < b {
                    assert(e[a].0@ != e[b].0@);
                } else {
                    assert(e[b].0@ != e[a].0@);
                }
            }
        }
        ids
    }
}


/// What an id was given last is what it has; no other id is touched; what was taken out is gone.
pub proof fn the_last_value_counts<V>(
    a: &mut IdMap<V>,
    b: &mut IdMap<V>,
    c: &mut IdMap<V>,
    id: &str,
    other: &str,
    value: V,
    late: V,
    got: Option<&V>,
    kept: Option<&V>,
    was: Option<&V>,
    is: Option<&V>,
    taken: Option<V>,
    gone: Option<&V>,
)
    requires
        other@ != id@,
        call_ensures(IdMap::<V>::set, (a, id, value), ()),
        call_ensures(IdMap::<V>::get, (final(a), id), got),
        call_ensures(IdMap::<V>::get, (old(a), other), was),
        call_ensures(IdMap::<V>::get, (final(a), other), is),
        *old(b) == *final(a),
        call_ensures(IdMap::<V>::keep, (b, id, late), ()),
        call_ensures(IdMap::<V>::get, (final(b), id), kept),
        *old(c) == *final(b),
        call_ensures(IdMap::<V>::remove, (c, id), taken),
        call_ensures(IdMap::<V>::get, (final(c), id), gone),
    ensures
        got is Some && *got->0 == value,
        kept is Some && *kept->0 == value,
        is is Some == was is Some,
        is is Some ==> *is->0 == *was->0,
        taken == Some(value),
        gone is None,
{
}

} // verus!
