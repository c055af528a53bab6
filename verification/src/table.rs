//! A small table from text to values.

use vstd::prelude::*;

use crate::text::same_text;

verus! {

/// What some entries give, in their order: a key that appears twice keeps the
/// last value.
pub open spec fn entries_map<V>(entries: Seq<(String, V)>) -> Map<Seq<char>, V>
    decreases entries.len(),
{
    if entries.len() == 0 {
        Map::empty()
    } else {
        entries_map(entries.drop_last()).insert(entries.last().0@, entries.last().1)
    }
}

/// No key appears twice.
pub open spec fn distinct_keys<V>(entries: Seq<(String, V)>) -> bool {
    forall|i: int, j: int|
        0 <= i < j < entries.len() ==> (#[trigger] entries[i]).0@ != (#[trigger] entries[j]).0@
}

proof fn lemma_front_distinct<V>(entries: Seq<(String, V)>)
    requires
        distinct_keys(entries),
        entries.len() > 0,
    ensures
        distinct_keys(entries.drop_last()),
{
    let front = entries.drop_last();
    assert forall|i: int, j: int| 0 <= i < j < front.len() implies (#[trigger] front[i]).0@ != (
    #[trigger] front[j]).0@ by {
        assert(entries[i].0@ != entries[j].0@);
    }
}

proof fn lemma_entries_map<V>(entries: Seq<(String, V)>, key: Seq<char>)
    ensures
        entries_map(entries).contains_key(key) <==> exists|i: int|
            0 <= i < entries.len() && (#[trigger] entries[i]).0@ == key,
    decreases entries.len(),
{
    if entries.len() > 0 {
        let front = entries.drop_last();
        lemma_entries_map(front, key);
        if entries_map(entries).contains_key(key) {
            if entries.last().0@ == key {
                assert(entries[entries.len() - 1].0@ == key);
            } else {
                let i = choose|i: int| 0 <= i < front.len() && (#[trigger] front[i]).0@ == key;
                assert(entries[i].0@ == key);
            }
        }
        if exists|i: int| 0 <= i < entries.len() && (#[trigger] entries[i]).0@ == key {
            let i = choose|i: int| 0 <= i < entries.len() && (#[trigger] entries[i]).0@ == key;
            if i < front.len() {
                assert(front[i].0@ == key);
            }
        }
    }
}

proof fn lemma_entry<V>(entries: Seq<(String, V)>, i: int)
    requires
        distinct_keys(entries),
        0 <= i < entries.len(),
    ensures
        entries_map(entries).contains_key(entries[i].0@),
        entries_map(entries)[entries[i].0@] == entries[i].1,
    decreases entries.len(),
{
    if i < entries.len() - 1 {
        lemma_front_distinct(entries);
        lemma_entry(entries.drop_last(), i);
        assert(entries[i].0@ != entries[entries.len() - 1].0@);
    }
}

proof fn lemma_update<V>(entries: Seq<(String, V)>, i: int, entry: (String, V))
    requires
        distinct_keys(entries),
        0 <= i < entries.len(),
        entry.0@ == entries[i].0@,
    ensures
        entries_map(entries.update(i, entry)) =~= entries_map(entries).insert(entry.0@, entry.1),
    decreases entries.len(),
{
    let front = entries.drop_last();
    if i < entries.len() - 1 {
        lemma_front_distinct(entries);
        lemma_update(front, i, entry);
        assert(entries.update(i, entry).drop_last() =~= front.update(i, entry));
        assert(entries[i].0@ != entries[entries.len() - 1].0@);
    } else {
        assert(entries.update(i, entry).drop_last() =~= front);
    }
}

proof fn lemma_remove<V>(entries: Seq<(String, V)>, i: int)
    requires
        distinct_keys(entries),
        0 <= i < entries.len(),
    ensures
        entries_map(entries.remove(i)) =~= entries_map(entries).remove(entries[i].0@),
    decreases entries.len(),
{
    let front = entries.drop_last();
    if i < entries.len() - 1 {
        lemma_front_distinct(entries);
        lemma_remove(front, i);
        assert(entries.remove(i).drop_last() =~= front.remove(i));
        assert(entries.remove(i).last() == entries.last());
        assert(entries[i].0@ != entries[entries.len() - 1].0@);
    } else {
        assert(entries.remove(i) =~= front);
        lemma_entries_map(front, entries[i].0@);
        if entries_map(front).contains_key(entries[i].0@) {
            let j = choose|j: int|
                0 <= j < front.len() && (#[trigger] front[j]).0@ == entries[i].0@;
            assert(entries[j].0@ != entries[i].0@);
        }
    }
}

proof fn lemma_len<V>(entries: Seq<(String, V)>)
    requires
        distinct_keys(entries),
    ensures
        entries_map(entries).dom().finite(),
        entries_map(entries).len() == entries.len(),
    decreases entries.len(),
{
    if entries.len() > 0 {
        let front = entries.drop_last();
        let last = entries.last().0@;
        lemma_front_distinct(entries);
        lemma_len(front);
        lemma_entries_map(front, last);
        assert(!entries_map(front).contains_key(last)) by {
            if entries_map(front).contains_key(last) {
                let i = choose|i: int| 0 <= i < front.len() && (#[trigger] front[i]).0@ == last;
                assert(entries[i].0@ != entries[entries.len() - 1].0@);
            }
        }
        assert(entries_map(entries).dom() =~= entries_map(front).dom().insert(last));
    }
}

/// A table from text to values.
#[derive(Debug)]
pub struct Table<V> {
    entries: Vec<(String, V)>,
}

impl<V> View for Table<V> {
    type V = Map<Seq<char>, V>;

    closed spec fn view(&self) -> Map<Seq<char>, V> {
        entries_map(self.entries@)
    }
}

impl<V> Table<V> {
    #[verifier::type_invariant]
    spec fn well_formed(self) -> bool {
        distinct_keys(self.entries@)
    }

    /// An empty table.
    pub fn new() -> (r: Table<V>)
        ensures
            r@ == Map::<Seq<char>, V>::empty(),
    {
        Table { entries: Vec::new() }
    }

    /// Position of `key`, or the number of entries.
    fn find(&self, key: &str) -> (r: usize)
        ensures
            r <= self.entries@.len(),
            r < self.entries@.len() ==> self.entries@[r as int].0@ == key@,
            r == self.entries@.len() ==> !self@.contains_key(key@),
    {
        let mut i: usize = 0;
        while i < self.entries.len()
            invariant
                i <= self.entries@.len(),
                forall|j: int| 0 <= j < i ==> (#[trigger] self.entries@[j]).0@ != key@,
            decreases self.entries@.len() - i,
        {
            if same_text(self.entries[i].0.as_str(), key) {
                return i;
            }
            i += 1;
        }
        proof {
            lemma_entries_map(self.entries@, key@);
        }
        i
    }

    /// The value of `key`.
    pub fn get(&self, key: &str) -> (r: Option<&V>)
        ensures
            match r {
                Some(v) => self@.contains_key(key@) && self@[key@] == *v,
                None => !self@.contains_key(key@),
            },
    {
        proof {
            use_type_invariant(self);
        }
        let i: usize = self.find(key);
        if i < self.entries.len() {
            proof {
                lemma_entry(self.entries@, i as int);
            }
            Some(&self.entries[i].1)
        } else {
            None
        }
    }

    /// Number of keys.
    pub fn len(&self) -> (r: usize)
        ensures
            self@.dom().finite(),
            r == self@.len(),
    {
        proof {
            use_type_invariant(self);
            lemma_len(self.entries@);
        }
        self.entries.len()
    }

    /// Sets the value of `key`.
    pub fn insert(&mut self, key: &str, value: V)
        ensures
            final(self)@ == old(self)@.insert(key@, value),
    {
        proof {
            use_type_invariant(&*self);
        }
        let i: usize = self.find(key);
        let mut entries: Vec<(String, V)> = Vec::new();
        std::mem::swap(&mut entries, &mut self.entries);
        let ghost before = entries@;
        if i < entries.len() {
            entries.set(i, (key.to_owned(), value));
            proof {
                lemma_update(before, i as int, entries@[i as int]);
                assert forall|a: int, b: int| 0 <= a < b < entries@.len() implies (
                #[trigger] entries@[a]).0@ != (#[trigger] entries@[b]).0@ by {
                    assert(before[a].0@ != before[b].0@);
                }
            }
        } else {
            entries.push((key.to_owned(), value));
            proof {
                lemma_entries_map(before, key@);
                assert(entries@.drop_last() =~= before);
                assert forall|a: int, b: int| 0 <= a < b < entries@.len() implies (
                #[trigger] entries@[a]).0@ != (#[trigger] entries@[b]).0@ by {
                    if b < before.len() {
                        assert(before[a].0@ != before[b].0@);
                    } else {
                        assert(before[a].0@ != key@);
                    }
                }
            }
        }
        self.entries = entries;
    }

    /// Removes the value of `key`.
    pub fn remove(&mut self, key: &str)
        ensures
            final(self)@ == old(self)@.remove(key@),
    {
        proof {
            use_type_invariant(&*self);
        }
        let i: usize = self.find(key);
        let mut entries: Vec<(String, V)> = Vec::new();
        std::mem::swap(&mut entries, &mut self.entries);
        let ghost before = entries@;
        if i < entries.len() {
            let _ = entries.remove(i);
            proof {
                lemma_remove(before, i as int);
                assert forall|a: int, b: int| 0 <= a < b < entries@.len() implies (
                #[trigger] entries@[a]).0@ != (#[trigger] entries@[b]).0@ by {
                    let x = if a < i {
                        a
                    } else {
                        a + 1
                    };
                    let y = if b < i {
                        b
                    } else {
                        b + 1
                    };
                    assert(before[x].0@ != before[y].0@);
                }
            }
        } else {
            assert(old(self)@.remove(key@) =~= old(self)@);
        }
        self.entries = entries;
    }
}

/// What was put under a key is found there, whatever stands under other keys
/// stays, and what was removed is gone; a new table is empty.
pub proof fn tables_give_back_what_was_put<V>(
    fresh: Table<V>,
    put: &mut Table<V>,
    key: &str,
    value: V,
    taken: &mut Table<V>,
    other: &str,
    before: Option<&V>,
    after: Option<&V>,
    gone: Option<&V>,
    none: Option<&V>,
)
    requires
        call_ensures(Table::<V>::new, (), fresh),
        call_ensures(Table::<V>::get, (&fresh, other), none),
        call_ensures(Table::<V>::insert, (put, key, value), ()),
        call_ensures(Table::<V>::get, (old(put), other), before),
        call_ensures(Table::<V>::get, (final(put), other), after),
        *old(taken) == *final(put),
        call_ensures(Table::<V>::remove, (taken, key), ()),
        call_ensures(Table::<V>::get, (final(taken), other), gone),
    ensures
        none is None,
        other@ == key@ ==> after == Some(&value) && gone is None,
        other@ != key@ ==> after == before && gone == before,
{
}

/// A table counts its keys: a new table has none, and a key that was not there
/// is one more.
pub proof fn tables_count_their_keys<V>(
    fresh: Table<V>,
    none: usize,
    table: &mut Table<V>,
    key: &str,
    value: V,
    before: usize,
    found: Option<&V>,
    after: usize,
)
    requires
        call_ensures(Table::<V>::new, (), fresh),
        call_ensures(Table::<V>::len, (&fresh,), none),
        call_ensures(Table::<V>::len, (old(table),), before),
        call_ensures(Table::<V>::get, (old(table), key), found),
        call_ensures(Table::<V>::insert, (table, key, value), ()),
        call_ensures(Table::<V>::len, (final(table),), after),
    ensures
        none == 0,
        after == before + (if found is None {
            1int
        } else {
            0
        }),
{
    assert(found is None ==> !old(table)@.dom().contains(key@));
    if found is Some {
        assert(old(table)@.insert(key@, value).dom() =~= old(table)@.dom());
    }
}

} // verus!
