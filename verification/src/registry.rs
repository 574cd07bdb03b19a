//! A map from download identifiers to values.

use vstd::prelude::*;

use crate::text::same_text;

verus! {

/// One identifier with its value.
pub struct Entry<V> {
    pub id: String,
    pub value: V,
}

/// Values by identifier. No identifier is held twice.
pub struct Registry<V> {
    entries: Vec<Entry<V>>,
}

impl<V: View> View for Registry<V> {
    type V = Map<Seq<char>, V::V>;

    closed spec fn view(&self) -> Map<Seq<char>, V::V> {
        Map::new(
            |id: Seq<char>| exists|i: int| self.holds_at(id, i),
            |id: Seq<char>| self.entries@[choose|i: int| self.holds_at(id, i)].value@,
        )
    }
}

impl<V: View> Registry<V> {
    spec fn holds_at(self, id: Seq<char>, i: int) -> bool {
        0 <= i < self.entries@.len() && self.entries@[i].id@ == id
    }

    /// No identifier is held twice.
    pub closed spec fn wf(self) -> bool {
        forall|i: int, j: int|
            0 <= i < j < self.entries@.len() ==> (#[trigger] self.entries@[i]).id@ != (
            #[trigger] self.entries@[j]).id@
    }

    /// What is held, each identifier with its value, in the order in which it is walked.
    pub closed spec fn listing(self) -> Seq<(Seq<char>, V::V)> {
        self.entries@.map_values(|e: Entry<V>| (e.id@, e.value@))
    }

    proof fn lemma_at(self, i: int)
        requires
            self.wf(),
            0 <= i < self.entries@.len(),
        ensures
            self@.contains_key(self.entries@[i].id@),
            self@[self.entries@[i].id@] == self.entries@[i].value@,
    {
        let id = self.entries@[i].id@;
        assert(self.holds_at(id, i));
        let j = choose|j: int| self.holds_at(id, j);
        assert(self.holds_at(id, j));
        assert(i == j);
    }

    /// The listing and the map hold the same: every identifier once, with its value.
    pub proof fn listing_is_the_map(self)
        requires
            self.wf(),
        ensures
            forall|i: int|
                0 <= i < self.listing().len() ==> self@.contains_key(
                    (#[trigger] self.listing()[i]).0,
                ) && self@[self.listing()[i].0] == self.listing()[i].1,
            forall|id: Seq<char>| #[trigger]
                self@.contains_key(id) ==> exists|i: int|
                    0 <= i < self.listing().len() && (#[trigger] self.listing()[i]).0 == id,
            forall|i: int, j: int|
                0 <= i < j < self.listing().len() ==> (#[trigger] self.listing()[i]).0 != (
                #[trigger] self.listing()[j]).0,
    {
        assert forall|i: int| 0 <= i < self.listing().len() implies self@.contains_key(
            (#[trigger] self.listing()[i]).0,
        ) && self@[self.listing()[i].0] == self.listing()[i].1 by {
            self.lemma_at(i);
        }
        assert forall|id: Seq<char>| #[trigger] self@.contains_key(id) implies exists|i: int|
            0 <= i < self.listing().len() && (#[trigger] self.listing()[i]).0 == id by {
            let i = choose|i: int| self.holds_at(id, i);
            assert(self.holds_at(id, i));
            assert(self.listing()[i].0 == id);
        }
    }

    /// An empty map.
    pub fn new() -> (r: Self)
        ensures
            r.wf(),
            r@ == Map::<Seq<char>, V::V>::empty(),
            r.listing() == Seq::<(Seq<char>, V::V)>::empty(),
    {
        let r = Registry { entries: Vec::new() };
        assert(r@ =~= Map::<Seq<char>, V::V>::empty());
        r
    }

    fn find(&self, id: &str) -> (r: Option<usize>)
        requires
            self.wf(),
        ensures
            match r {
                Some(i) => i < self.entries@.len() && self.entries@[i as int].id@ == id@
                    && self@.contains_key(id@) && self@[id@] == self.entries@[i as int].value@,
                None => !self@.contains_key(id@) && forall|j: int|
                    0 <= j < self.entries@.len() ==> (#[trigger] self.entries@[j]).id@ != id@,
            },
    {
        let mut i: usize = 0;
        while i < self.entries.len()
            invariant
                self.wf(),
                i <= self.entries@.len(),
                forall|j: int| 0 <= j < i ==> (#[trigger] self.entries@[j]).id@ != id@,
            decreases self.entries.len() - i,
        {
            if same_text(&self.entries[i].id, id) {
                proof {
                    self.lemma_at(i as int);
                }
                return Some(i);
            }
            i += 1;
        }
        None
    }

    /// Whether the identifier is held.
    pub fn contains(&self, id: &str) -> (r: bool)
        requires
            self.wf(),
        ensures
            r == self@.contains_key(id@),
    {
        self.find(id).is_some()
    }

    /// The value of an identifier.
    pub fn get(&self, id: &str) -> (r: Option<&V>)
        requires
            self.wf(),
        ensures
            match r {
                Some(v) => self@.contains_key(id@) && v@ == self@[id@],
                None => !self@.contains_key(id@),
            },
    {
        match self.find(id) {
            Some(i) => Some(&self.entries[i].value),
            None => None,
        }
    }

    /// The value of an identifier, to be changed in place.
    pub fn get_mut(&mut self, id: &str) -> (r: Option<&mut V>)
        requires
            old(self).wf(),
        ensures
            match r {
                Some(v) => {
                    &&& old(self)@.contains_key(id@)
                    &&& v@ == old(self)@[id@]
                    &&& final(self).wf()
                    &&& final(self)@ == old(self)@.insert(id@, final(v)@)
                },
                None => !old(self)@.contains_key(id@) && *final(self) == *old(self),
            },
    {
        match self.find(id) {
            Some(i) => {
                let ghost before = *self;
                assert forall|after: Registry<V>|
                    (#[trigger] after.entries@) == before.entries@.update(
                        i as int,
                        after.entries@[i as int],
                    ) && after.entries@[i as int].id == before.entries@[i as int].id implies after.wf()
                    && after@ == before@.insert(id@, after.entries@[i as int].value@) by {
                    lemma_replaced(before, after, i as int, after.entries@[i as int].value);
                }
                Some(&mut self.entries[i].value)
            },
            None => None,
        }
    }

    /// Puts a value under an identifier, in place of the one that was there.
    pub fn insert(&mut self, id: String, value: V)
        requires
            old(self).wf(),
        ensures
            final(self).wf(),
            final(self)@ == old(self)@.insert(id@, value@),
    {
        match self.get_mut(&id) {
            Some(v) => {
                *v = value;
            },
            None => {
                let ghost before = *self;
                self.entries.push(Entry { id, value });
                let ghost n = before.entries@.len() as int;
                proof {
                    assert forall|j: int| 0 <= j < n implies before.entries@[j].id@ != id@ by {
                        before.lemma_at(j);
                    }
                    assert(self.wf());
                    self.lemma_at(n);
                    assert forall|k: Seq<char>| #[trigger] self@.contains_key(
                        k,
                    ) implies before@.insert(id@, value@).contains_key(k) && self@[k]
                        == before@.insert(id@, value@)[k] by {
                        let j = choose|j: int| self.holds_at(k, j);
                        assert(self.holds_at(k, j));
                        self.lemma_at(j);
                        if j < n {
                            before.lemma_at(j);
                        }
                    }
                    assert forall|k: Seq<char>| #[trigger] before@.insert(
                        id@,
                        value@,
                    ).contains_key(k) implies self@.contains_key(k) by {
                        if k != id@ {
                            let j = choose|j: int| before.holds_at(k, j);
                            assert(before.holds_at(k, j));
                            self.lemma_at(j);
                        }
                    }
                    assert(self@ =~= before@.insert(id@, value@));
                }
            },
        }
    }

    /// Takes an identifier out, with its value.
    pub fn remove(&mut self, id: &str) -> (r: Option<V>)
        requires
            old(self).wf(),
        ensures
            final(self).wf(),
            final(self)@ == old(self)@.remove(id@),
            match r {
                Some(v) => old(self)@.contains_key(id@) && v@ == old(self)@[id@],
                None => !old(self)@.contains_key(id@) && *final(self) == *old(self),
            },
    {
        match self.find(id) {
            Some(i) => {
                let ghost before = *self;
                let e = self.entries.remove(i);
                proof {
                    assert forall|j: int| 0 <= j < self.entries@.len() implies (
                    #[trigger] self.entries@[j]) == before.entries@[if j < i {
                        j
                    } else {
                        j + 1
                    }] by {}
                    assert(self.wf());
                    assert forall|k: Seq<char>| #[trigger] self@.contains_key(
                        k,
                    ) implies before@.remove(id@).contains_key(k) && self@[k] == before@.remove(
                        id@,
                    )[k] by {
                        let j = choose|j: int| self.holds_at(k, j);
                        assert(self.holds_at(k, j));
                        self.lemma_at(j);
                        before.lemma_at(if j < i { j } else { j + 1 });
                    }
                    assert forall|k: Seq<char>| #[trigger] before@.remove(id@).contains_key(
                        k,
                    ) implies self@.contains_key(k) by {
                        let j = choose|j: int| before.holds_at(k, j);
                        assert(before.holds_at(k, j));
                        self.lemma_at(if j < i { j } else { j - 1 });
                    }
                    assert(self@ =~= before@.remove(id@));
                }
                Some(e.value)
            },
            None => {
                assert(self@ =~= self@.remove(id@));
                None
            },
        }
    }

    /// How many identifiers are held.
    pub fn len(&self) -> (r: usize)
        ensures
            r == self.listing().len(),
    {
        self.entries.len()
    }

    /// The identifier at a place in the listing.
    pub fn id_at(&self, i: usize) -> (r: &String)
        requires
            i < self.listing().len(),
        ensures
            r@ == self.listing()[i as int].0,
    {
        &self.entries[i].id
    }

    /// The value at a place in the listing.
    pub fn value_at(&self, i: usize) -> (r: &V)
        requires
            i < self.listing().len(),
        ensures
            r@ == self.listing()[i as int].1,
    {
        &self.entries[i].value
    }

    /// The value at a place in the listing, to be changed in place.
    pub fn value_at_mut(&mut self, i: usize) -> (r: &mut V)
        requires
            old(self).wf(),
            i < old(self).listing().len(),
        ensures
            r@ == old(self).listing()[i as int].1,
            final(self).wf(),
            final(self).listing() == old(self).listing().update(
                i as int,
                (old(self).listing()[i as int].0, final(r)@),
            ),
    {
        let ghost before = *self;
        assert forall|after: Registry<V>|
            (#[trigger] after.entries@) == before.entries@.update(i as int, after.entries@[i as int])
                && after.entries@[i as int].id == before.entries@[i as int].id implies after.wf()
            && after.listing() == before.listing().update(
            i as int,
            (before.listing()[i as int].0, after.entries@[i as int].value@),
        ) by {
            lemma_replaced(before, after, i as int, after.entries@[i as int].value);
            assert(after.listing() =~= before.listing().update(
                i as int,
                (before.listing()[i as int].0, after.entries@[i as int].value@),
            ));
        }
        &mut self.entries[i].value
    }

    /// Two registries with the same identifiers in the same places, the values of one being
    /// those of the other changed by `f`, are maps of which one is the other changed by `f`.
    pub proof fn changed_throughout(before: Self, after: Self, f: spec_fn(V::V) -> V::V)
        requires
            before.wf(),
            after.wf(),
            after.listing() == before.listing().map_values(
                |e: (Seq<char>, V::V)| (e.0, f(e.1)),
            ),
        ensures
            after@ == before@.map_values(f),
    {
        before.listing_is_the_map();
        after.listing_is_the_map();
        assert forall|k: Seq<char>| #[trigger] after@.contains_key(k) implies before@.contains_key(k)
            && after@[k] == f(before@[k]) by {
            let i = choose|i: int|
                0 <= i < after.listing().len() && (#[trigger] after.listing()[i]).0 == k;
            assert(before.listing()[i].0 == k);
        }
        assert forall|k: Seq<char>| #[trigger] before@.contains_key(k) implies after@.contains_key(
            k,
        ) by {
            let i = choose|i: int|
                0 <= i < before.listing().len() && (#[trigger] before.listing()[i]).0 == k;
            assert(after.listing()[i].0 == k);
        }
        assert(after@ =~= before@.map_values(f));
    }
}

proof fn lemma_replaced<V: View>(before: Registry<V>, after: Registry<V>, i: int, value: V)
    requires
        before.wf(),
        0 <= i < before.entries@.len(),
        after.entries@ == before.entries@.update(i, Entry { id: before.entries@[i].id, value }),
    ensures
        after.wf(),
        after@ == before@.insert(before.entries@[i].id@, value@),
{
    let id = before.entries@[i].id@;
    assert forall|j: int| 0 <= j < before.entries@.len() implies (
    #[trigger] after.entries@[j]).id@ == before.entries@[j].id@ by {}
    assert(after.wf());
    after.lemma_at(i);
    assert forall|k: Seq<char>| #[trigger] after@.contains_key(k) implies before@.insert(
        id,
        value@,
    ).contains_key(k) && after@[k] == before@.insert(id, value@)[k] by {
        let j = choose|j: int| after.holds_at(k, j);
        assert(after.holds_at(k, j));
        after.lemma_at(j);
        before.lemma_at(j);
    }
    assert forall|k: Seq<char>| #[trigger] before@.insert(id, value@).contains_key(
        k,
    ) implies after@.contains_key(k) by {
        if k != id {
            let j = choose|j: int| before.holds_at(k, j);
            assert(before.holds_at(k, j));
            after.lemma_at(j);
        }
    }
    assert(after@ =~= before@.insert(id, value@));
}

} // verus!
