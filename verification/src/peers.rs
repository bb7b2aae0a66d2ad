//! A table keyed by peer identifier, in which no identifier occurs twice.

use vstd::prelude::*;

verus! {

/// The position of `id` among `ids`, where it occurs.
pub open spec fn index_of(ids: Seq<String>, id: Seq<char>) -> int {
    choose|i: int| 0 <= i < ids.len() && ids[i]@ == id
}

/// No identifier occurs twice.
pub open spec fn distinct(ids: Seq<String>) -> bool {
    forall|i: int, j: int| 0 <= i < ids.len() && 0 <= j < ids.len() && ids[i]@ == ids[j]@ ==> i == j
}

/// The map that parallel sequences of identifiers and values stand for.
pub open spec fn table_map<V>(ids: Seq<String>, values: Seq<V>) -> Map<Seq<char>, V> {
    Map::new(
        |id: Seq<char>| exists|i: int| 0 <= i < ids.len() && ids[i]@ == id,
        |id: Seq<char>| values[index_of(ids, id)],
    )
}

/// The entry at a position is the map's entry for its identifier.
pub proof fn lemma_table_at<V>(ids: Seq<String>, values: Seq<V>, i: int)
    requires
        distinct(ids),
        ids.len() == values.len(),
        0 <= i < ids.len(),
    ensures
        table_map(ids, values).contains_key(ids[i]@),
        table_map(ids, values)[ids[i]@] == values[i],
        index_of(ids, ids[i]@) == i,
{
    let j = index_of(ids, ids[i]@);
    assert(0 <= j < ids.len() && ids[j]@ == ids[i]@);
}

/// Replacing the value at a position replaces the map's entry for its
/// identifier and nothing else.
pub proof fn lemma_table_update<V>(ids: Seq<String>, values: Seq<V>, i: int, v: V)
    requires
        distinct(ids),
        ids.len() == values.len(),
        0 <= i < ids.len(),
    ensures
        table_map(ids, values.update(i, v)) == table_map(ids, values).insert(ids[i]@, v),
{
    let before = table_map(ids, values);
    let after = table_map(ids, values.update(i, v));
    lemma_table_at(ids, values, i);
    assert forall|id: Seq<char>| after.contains_key(id) implies #[trigger] after[id] == before.insert(
        ids[i]@,
        v,
    )[id] by {
        let j = index_of(ids, id);
        assert(0 <= j < ids.len() && ids[j]@ == id);
    }
    assert(after =~= before.insert(ids[i]@, v));
}

/// Appending an identifier that is not yet present adds one entry to the map.
pub proof fn lemma_table_push<V>(ids: Seq<String>, values: Seq<V>, id: String, v: V)
    requires
        distinct(ids),
        ids.len() == values.len(),
        !table_map(ids, values).contains_key(id@),
    ensures
        distinct(ids.push(id)),
        table_map(ids.push(id), values.push(v)) == table_map(ids, values).insert(id@, v),
{
    let before = table_map(ids, values);
    let ids2 = ids.push(id);
    let values2 = values.push(v);
    let after = table_map(ids2, values2);
    assert forall|i: int, j: int|
        0 <= i < ids2.len() && 0 <= j < ids2.len() && ids2[i]@ == ids2[j]@ implies i == j by {
        if i < ids.len() && j < ids.len() {
            assert(ids[i]@ == ids[j]@);
        } else if i < ids.len() {
            assert(ids[i]@ == id@);
        } else if j < ids.len() {
            assert(ids[j]@ == id@);
        }
    }
    assert(ids2[ids.len() as int]@ == id@);
    assert forall|k: Seq<char>| after.contains_key(k) <==> before.insert(id@, v).contains_key(k) by {
        if before.contains_key(k) {
            let i = index_of(ids, k);
            assert(ids2[i]@ == k);
        }
        if after.contains_key(k) && k != id@ {
            let i = index_of(ids2, k);
            assert(0 <= i < ids2.len() && ids2[i]@ == k);
            assert(ids[i]@ == k);
        }
    }
    assert forall|k: Seq<char>| after.contains_key(k) implies #[trigger] after[k] == before.insert(id@, v)[k] by {
        let i = index_of(ids2, k);
        assert(0 <= i < ids2.len() && ids2[i]@ == k);
        if k == id@ {
            assert(i == ids.len()) by {
                if i < ids.len() {
                    assert(ids[i]@ == id@);
                }
            }
        } else {
            assert(ids[i]@ == k);
            lemma_table_at(ids, values, i);
        }
    }
    assert(after =~= before.insert(id@, v));
}

/// Dropping a position drops the map's entry for its identifier and nothing
/// else.
pub proof fn lemma_table_remove<V>(ids: Seq<String>, values: Seq<V>, i: int)
    requires
        distinct(ids),
        ids.len() == values.len(),
        0 <= i < ids.len(),
    ensures
        distinct(ids.remove(i)),
        table_map(ids.remove(i), values.remove(i)) == table_map(ids, values).remove(ids[i]@),
{
    let before = table_map(ids, values);
    let ids2 = ids.remove(i);
    let values2 = values.remove(i);
    let after = table_map(ids2, values2);
    assert forall|a: int, b: int|
        0 <= a < ids2.len() && 0 <= b < ids2.len() && ids2[a]@ == ids2[b]@ implies a == b by {
        let a0 = if a < i { a } else { a + 1 };
        let b0 = if b < i { b } else { b + 1 };
        assert(ids[a0]@ == ids[b0]@);
    }
    assert forall|k: Seq<char>| after.contains_key(k) <==> before.remove(ids[i]@).contains_key(k) by {
        if after.contains_key(k) {
            let a = index_of(ids2, k);
            assert(0 <= a < ids2.len() && ids2[a]@ == k);
            let a0 = if a < i { a } else { a + 1 };
            assert(ids[a0]@ == k);
        }
        if before.contains_key(k) && k != ids[i]@ {
            let a0 = index_of(ids, k);
            assert(0 <= a0 < ids.len() && ids[a0]@ == k);
            let a = if a0 < i { a0 } else { a0 - 1 };
            assert(ids2[a]@ == k);
        }
    }
    assert forall|k: Seq<char>| after.contains_key(k) implies #[trigger] after[k] == before.remove(
        ids[i]@,
    )[k] by {
        let a = index_of(ids2, k);
        assert(0 <= a < ids2.len() && ids2[a]@ == k);
        let a0 = if a < i { a } else { a + 1 };
        assert(ids[a0]@ == k);
        lemma_table_at(ids, values, a0);
    }
    assert(after =~= before.remove(ids[i]@));
}

/// Values by peer identifier. Looking an identifier up never creates an
/// entry; inserting under a known identifier replaces its value.
pub struct PeerTable<V> {
    ids: Vec<String>,
    values: Vec<V>,
}

impl<V> View for PeerTable<V> {
    type V = Map<Seq<char>, V>;

    closed spec fn view(&self) -> Map<Seq<char>, V> {
        table_map(self.ids@, self.values@)
    }
}

impl<V> PeerTable<V> {
    #[verifier::type_invariant]
    spec fn inv(&self) -> bool {
        self.ids@.len() == self.values@.len() && distinct(self.ids@)
    }

    /// An empty table.
    pub fn new() -> (table: Self)
        ensures
            table@ == Map::<Seq<char>, V>::empty(),
    {
        let table = PeerTable { ids: Vec::new(), values: Vec::new() };
        assert(table@ =~= Map::<Seq<char>, V>::empty());
        table
    }

    /// Where `id` stands, if it is known.
    fn position(&self, id: &str) -> (at: Option<usize>)
        ensures
            at matches Some(i) ==> i < self.ids@.len() && self.ids@[i as int]@ == id@,
            at is None ==> forall|i: int| 0 <= i < self.ids@.len() ==> self.ids@[i]@ != id@,
    {
        let key = id.to_owned();
        let mut i: usize = 0;
        while i < self.ids.len()
            invariant
                i <= self.ids@.len(),
                key@ == id@,
                forall|j: int| 0 <= j < i ==> self.ids@[j]@ != id@,
            decreases self.ids@.len() - i,
        {
            if self.ids[i] == key {
                return Some(i);
            }
            i = i + 1;
        }
        None
    }

    /// Whether `id` has an entry.
    pub fn contains(&self, id: &str) -> (known: bool)
        ensures
            known == self@.contains_key(id@),
    {
        proof {
            use_type_invariant(self);
        }
        match self.position(id) {
            Some(i) => {
                proof {
                    lemma_table_at(self.ids@, self.values@, i as int);
                }
                true
            },
            None => false,
        }
    }

    /// The value stored for `id`.
    pub fn get(&self, id: &str) -> (value: Option<&V>)
        ensures
            value matches Some(v) ==> self@.contains_key(id@) && *v == self@[id@],
            value is None ==> !self@.contains_key(id@),
    {
        proof {
            use_type_invariant(self);
        }
        match self.position(id) {
            Some(i) => {
                proof {
                    lemma_table_at(self.ids@, self.values@, i as int);
                }
                Some(&self.values[i])
            },
            None => None,
        }
    }

    /// Lends out the value stored for `id`, to be changed in place. The table
    /// afterwards holds for `id` what the borrower left there.
    pub fn get_mut(&mut self, id: &str) -> (value: Option<&mut V>)
        ensures
            match value {
                Some(v) => old(self)@.contains_key(id@) && *v == old(self)@[id@] && final(self)@ == old(
                    self,
                )@.insert(id@, *final(v)),
                None => !old(self)@.contains_key(id@) && final(self)@ == old(self)@,
            },
    {
        proof {
            use_type_invariant(&*self);
        }
        match self.position(id) {
            Some(i) => {
                proof {
                    lemma_table_at(self.ids@, self.values@, i as int);
                    assert forall|v: V| table_map(self.ids@, self.values@.update(i as int, v)) == table_map(
                        self.ids@,
                        self.values@,
                    ).insert(id@, v) by {
                        lemma_table_update(self.ids@, self.values@, i as int, v);
                    }
                }
                Some(&mut self.values[i])
            },
            None => None,
        }
    }

    /// Stores `value` for `id` and hands back what was stored before.
    pub fn insert(&mut self, id: &str, value: V) -> (previous: Option<V>)
        ensures
            final(self)@ == old(self)@.insert(id@, value),
            previous matches Some(p) ==> old(self)@.contains_key(id@) && p == old(self)@[id@],
            previous is None ==> !old(self)@.contains_key(id@),
    {
        proof {
            use_type_invariant(&*self);
        }
        let at = self.position(id);
        let mut taken = PeerTable { ids: Vec::new(), values: Vec::new() };
        core::mem::swap(self, &mut taken);
        let PeerTable { mut ids, mut values } = taken;
        let previous = match at {
            Some(i) => {
                proof {
                    lemma_table_at(ids@, values@, i as int);
                    lemma_table_update(ids@, values@, i as int, value);
                }
                let mut slot = value;
                core::mem::swap(&mut values[i], &mut slot);
                Some(slot)
            },
            None => {
                let key = id.to_owned();
                proof {
                    lemma_table_push(ids@, values@, key, value);
                }
                ids.push(key);
                values.push(value);
                None
            },
        };
        *self = PeerTable { ids, values };
        previous
    }

    /// Takes the entry for `id` out of the table.
    pub fn take(&mut self, id: &str) -> (value: Option<V>)
        ensures
            final(self)@ == old(self)@.remove(id@),
            value matches Some(v) ==> old(self)@.contains_key(id@) && v == old(self)@[id@],
            value is None ==> !old(self)@.contains_key(id@),
    {
        proof {
            use_type_invariant(&*self);
        }
        let at = self.position(id);
        let mut taken = PeerTable { ids: Vec::new(), values: Vec::new() };
        core::mem::swap(self, &mut taken);
        let PeerTable { mut ids, mut values } = taken;
        let value = match at {
            Some(i) => {
                proof {
                    lemma_table_at(ids@, values@, i as int);
                    lemma_table_remove(ids@, values@, i as int);
                }
                ids.remove(i);
                Some(values.remove(i))
            },
            None => {
                assert(table_map(ids@, values@).remove(id@) =~= table_map(ids@, values@));
                None
            },
        };
        *self = PeerTable { ids, values };
        value
    }
}

} // verus!
