//! A small map keyed by toplevel id, held as a vector of unique keys.
use vstd::prelude::*;

verus! {

/// The entries as a map; later entries win (keys are unique anyway).
pub open spec fn table_map<V>(entries: Seq<(u16, V)>) -> Map<u16, V>
    decreases entries.len(),
{
    if entries.len() == 0 {
        Map::empty()
    } else {
        table_map(entries.drop_last()).insert(entries.last().0, entries.last().1)
    }
}

/// No key appears twice.
pub open spec fn keys_unique<V>(entries: Seq<(u16, V)>) -> bool {
    forall|i: int, j: int| 0 <= i < j < entries.len() ==> entries[i].0 != entries[j].0
}

proof fn lemma_table_lookup<V>(entries: Seq<(u16, V)>, i: int)
    requires
        keys_unique(entries),
        0 <= i < entries.len(),
    ensures
        table_map(entries).contains_key(entries[i].0),
        table_map(entries)[entries[i].0] == entries[i].1,
    decreases entries.len(),
{
    if i < entries.len() - 1 {
        lemma_table_lookup(entries.drop_last(), i);
    }
}

proof fn lemma_table_absent<V>(entries: Seq<(u16, V)>, key: u16)
    requires
        forall|j: int| 0 <= j < entries.len() ==> entries[j].0 != key,
    ensures
        !table_map(entries).contains_key(key),
    decreases entries.len(),
{
    if entries.len() > 0 {
        lemma_table_absent(entries.drop_last(), key);
    }
}

proof fn lemma_table_set<V>(entries: Seq<(u16, V)>, i: int, v: V)
    requires
        keys_unique(entries),
        0 <= i < entries.len(),
    ensures
        keys_unique(entries.update(i, (entries[i].0, v))),
        table_map(entries.update(i, (entries[i].0, v))) == table_map(entries).insert(entries[i].0, v),
    decreases entries.len(),
{
    let k = entries[i].0;
    let u = entries.update(i, (k, v));
    assert forall|a: int, b: int| 0 <= a < b < u.len() implies u[a].0 != u[b].0 by {
        assert(u[a].0 == entries[a].0 && u[b].0 == entries[b].0);
    }
    if i == entries.len() - 1 {
        assert(u.drop_last() == entries.drop_last());
        assert(table_map(u) =~= table_map(entries).insert(k, v));
    } else {
        let d = entries.drop_last();
        lemma_table_set(d, i, v);
        assert(u.drop_last() == d.update(i, (k, v)));
        assert(entries.last().0 != k);
        assert(table_map(u) =~= table_map(entries).insert(k, v));
    }
}

/// Values by toplevel id.
pub struct Table<V> {
    entries: Vec<(u16, V)>,
}

impl<V> Table<V> {
    #[verifier::type_invariant]
    closed spec fn wf(&self) -> bool {
        keys_unique(self.entries@)
    }

    /// The values by key.
    pub closed spec fn view(&self) -> Map<u16, V> {
        table_map(self.entries@)
    }
}

impl<V: Copy> Table<V> {
    /// No entries.
    pub fn new() -> (t: Self)
        ensures
            t@ == Map::<u16, V>::empty(),
    {
        Table { entries: Vec::new() }
    }

    /// The value stored for `key`, if any.
    pub fn get(&self, key: u16) -> (v: Option<V>)
        ensures
            v == if self@.contains_key(key) {
                Some(self@[key])
            } else {
                None
            },
    {
        proof {
            use_type_invariant(self);
        }
        let mut i: usize = 0;
        while i < self.entries.len()
            invariant
                0 <= i <= self.entries@.len(),
                keys_unique(self.entries@),
                forall|j: int| 0 <= j < i ==> self.entries@[j].0 != key,
            decreases self.entries@.len() - i,
        {
            if self.entries[i].0 == key {
                proof {
                    lemma_table_lookup(self.entries@, i as int);
                }
                return Some(self.entries[i].1);
            }
            i += 1;
        }
        proof {
            lemma_table_absent(self.entries@, key);
        }
        None
    }

    /// Store `v` for `key`, replacing any value it had.
    pub fn insert(&mut self, key: u16, v: V)
        ensures
            final(self)@ == old(self)@.insert(key, v),
    {
        proof {
            use_type_invariant(&*self);
        }
        let ghost before = self.entries@;
        let mut entries: Vec<(u16, V)> = Vec::new();
        std::mem::swap(&mut entries, &mut self.entries);
        let mut i: usize = 0;
        while i < entries.len()
            invariant
                entries@ == before,
                before == old(self).entries@,
                keys_unique(before),
                0 <= i <= entries@.len(),
                forall|j: int| 0 <= j < i ==> entries@[j].0 != key,
            decreases entries@.len() - i,
        {
            if entries[i].0 == key {
                entries.set(i, (key, v));
                proof {
                    lemma_table_set(before, i as int, v);
                    assert(entries@ == before.update(i as int, (before[i as int].0, v)));
                    assert(table_map(entries@) == table_map(before).insert(key, v));
                }
                self.entries = entries;
                return;
            }
            i += 1;
        }
        entries.push((key, v));
        proof {
            lemma_table_absent(before, key);
            assert(entries@.drop_last() == before);
            assert forall|a: int, b: int| 0 <= a < b < entries@.len() implies entries@[a].0
                != entries@[b].0 by {
                if b == entries@.len() - 1 {
                    assert(before[a].0 != key);
                }
            }
            assert(table_map(entries@) =~= table_map(before).insert(key, v));
        }
        self.entries = entries;
    }

    /// Drop `key` and its value, if present.
    pub fn remove(&mut self, key: u16)
        ensures
            final(self)@ == old(self)@.remove(key),
    {
        proof {
            use_type_invariant(&*self);
        }
        let ghost before = self.entries@;
        let mut entries: Vec<(u16, V)> = Vec::new();
        std::mem::swap(&mut entries, &mut self.entries);
        let mut kept: Vec<(u16, V)> = Vec::new();
        let mut i: usize = 0;
        while i < entries.len()
            invariant
                entries@ == before,
                before == old(self).entries@,
                keys_unique(before),
                0 <= i <= entries@.len(),
                keys_unique(kept@),
                forall|j: int| 0 <= j < kept@.len() ==> kept@[j].0 != key,
                forall|j: int| 0 <= j < kept@.len() ==> exists|k: int| 0 <= k < i && before[k] == #[trigger] kept@[j],
                table_map(kept@) == table_map(before.take(i as int)).remove(key),
            decreases entries@.len() - i,
        {
            let e = entries[i];
            proof {
                assert(before.take(i + 1).drop_last() =~= before.take(i as int));
            }
            if e.0 != key {
                let ghost old_kept = kept@;
                kept.push(e);
                proof {
                    assert(kept@.drop_last() =~= old_kept);
                    assert forall|a: int, b: int| 0 <= a < b < kept@.len() implies kept@[a].0 != kept@[b].0 by {
                        if b == kept@.len() - 1 {
                            let k = choose|k: int| 0 <= k < i && before[k] == kept@[a];
                            assert(before[k].0 != before[i as int].0);
                        }
                    }
                    assert forall|j: int| 0 <= j < kept@.len() implies exists|k: int| 0 <= k < i + 1 && before[k] == #[trigger] kept@[j] by {
                        if j == kept@.len() - 1 {
                            assert(before[i as int] == kept@[j]);
                        } else {
                            assert(old_kept[j] == kept@[j]);
                        }
                    }
                    assert(table_map(kept@) =~= table_map(before.take(i + 1)).remove(key));
                }
            } else {
                proof {
                    assert(table_map(kept@) =~= table_map(before.take(i + 1)).remove(key));
                }
            }
            i += 1;
        }
        proof {
            assert(before.take(before.len() as int) =~= before);
        }
        self.entries = kept;
    }
}

} // verus!
