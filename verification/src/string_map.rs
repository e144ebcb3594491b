//! A map keyed by strings, holding each key once, in the order the keys
//! were first inserted.

use vstd::prelude::*;

verus! {

/// The map that a sequence of entries denotes: each entry binds its key,
/// later entries over earlier ones.
pub open spec fn entries_map<V>(entries: Seq<(Seq<char>, V)>) -> Map<Seq<char>, V>
    decreases entries.len(),
{
    if entries.len() == 0 {
        Map::empty()
    } else {
        entries_map(entries.drop_last()).insert(entries.last().0, entries.last().1)
    }
}

/// No key occurs twice among the entries.
pub open spec fn keys_distinct<V>(entries: Seq<(Seq<char>, V)>) -> bool {
    forall|i: int, j: int|
        0 <= i < entries.len() && 0 <= j < entries.len() && i != j ==> #[trigger] entries[i].0
            != #[trigger] entries[j].0
}

/// A string-keyed map, kept as a list of entries in insertion order.
pub struct StringMap<V> {
    entries: Vec<(String, V)>,
}

impl<V> StringMap<V> {
    /// The entries, keys taken by their text.
    pub closed spec fn entries_view(&self) -> Seq<(Seq<char>, V)> {
        self.entries@.map_values(|e: (String, V)| (e.0@, e.1))
    }

    /// The mapping from key to value.
    pub open spec fn map_view(&self) -> Map<Seq<char>, V> {
        entries_map(self.entries_view())
    }

    /// No key occurs twice.
    pub open spec fn wf(&self) -> bool {
        keys_distinct(self.entries_view())
    }

    /// An empty map.
    pub fn new() -> (res: Self)
        ensures
            res.wf(),
            res.entries_view() == Seq::<(Seq<char>, V)>::empty(),
            res.map_view() == Map::<Seq<char>, V>::empty(),
    {
        let res = StringMap { entries: Vec::new() };
        assert(res.entries_view() =~= Seq::<(Seq<char>, V)>::empty());
        res
    }

    /// The number of keys.
    pub fn len(&self) -> (res: usize)
        requires
            self.wf(),
        ensures
            res == self.entries_view().len(),
            res == self.map_view().len(),
    {
        proof {
            lemma_entries_map_len(self.entries_view());
        }
        self.entries.len()
    }

    /// The index of the entry whose key is `key`, if there is one.
    fn position(&self, key: &str) -> (res: Option<usize>)
        ensures
            match res {
                Some(i) => i < self.entries_view().len() && self.entries_view()[i as int].0
                    == key@,
                None => forall|i: int|
                    0 <= i < self.entries_view().len() ==> #[trigger] self.entries_view()[i].0
                        != key@,
            },
    {
        let wanted = String::from_str(key);
        let n = self.entries.len();
        let mut i: usize = 0;
        while i < n
            invariant
                n == self.entries@.len(),
                0 <= i <= n,
                wanted@ == key@,
                forall|k: int| 0 <= k < i ==> #[trigger] self.entries_view()[k].0 != key@,
            decreases n - i,
        {
            if self.entries[i].0 == wanted {
                return Some(i);
            }
            i = i + 1;
        }
        None
    }

    /// Whether `key` is bound.
    pub fn contains_key(&self, key: &str) -> (res: bool)
        requires
            self.wf(),
        ensures
            res == self.map_view().contains_key(key@),
    {
        proof {
            lemma_entries_map_contains(self.entries_view());
        }
        self.position(key).is_some()
    }

    /// The value bound to `key`, if any.
    pub fn get(&self, key: &str) -> (res: Option<&V>)
        requires
            self.wf(),
        ensures
            match res {
                Some(v) => self.map_view().contains_key(key@) && *v == self.map_view()[key@],
                None => !self.map_view().contains_key(key@),
            },
    {
        proof {
            lemma_entries_map_contains(self.entries_view());
        }
        match self.position(key) {
            Some(i) => {
                proof {
                    lemma_entries_map_value(self.entries_view(), i as int);
                }
                Some(&self.entries[i].1)
            },
            None => None,
        }
    }

    /// Binds `key` to `value`; a key that is already bound keeps its place
    /// and takes the new value.
    pub fn insert(&mut self, key: String, value: V)
        requires
            old(self).wf(),
        ensures
            final(self).wf(),
            final(self).map_view() == old(self).map_view().insert(key@, value),
            forall|i: int|
                0 <= i < old(self).entries_view().len() && #[trigger] old(self).entries_view()[i].0
                    == key@ ==> final(self).entries_view() == old(self).entries_view().update(
                    i,
                    (key@, value),
                ),
            !old(self).map_view().contains_key(key@) ==> final(self).entries_view() == old(
                self,
            ).entries_view().push((key@, value)),
    {
        let ghost before = self.entries_view();
        proof {
            lemma_entries_map_contains(before);
        }
        match self.position(key.as_str()) {
            Some(i) => {
                self.entries.set(i, (key, value));
                proof {
                    assert(self.entries_view() =~= before.update(i as int, (key@, value)));
                    lemma_entries_map_update(before, i as int, value);
                }
            },
            None => {
                self.entries.push((key, value));
                proof {
                    assert(self.entries_view() =~= before.push((key@, value)));
                    assert(self.entries_view().drop_last() =~= before);
                }
            },
        }
    }

    /// Gives up the map for its entries, in insertion order.
    pub fn into_entries(self) -> (res: Vec<(String, V)>)
        ensures
            res@.map_values(|e: (String, V)| (e.0@, e.1)) == self.entries_view(),
    {
        self.entries
    }

    /// The entries, in insertion order.
    pub fn as_slice(&self) -> (res: &[(String, V)])
        ensures
            res@.map_values(|e: (String, V)| (e.0@, e.1)) == self.entries_view(),
    {
        self.entries.as_slice()
    }
}

proof fn lemma_entries_map_contains<V>(entries: Seq<(Seq<char>, V)>)
    ensures
        forall|k: Seq<char>|
            #[trigger] entries_map(entries).contains_key(k) <==> exists|i: int|
                0 <= i < entries.len() && #[trigger] entries[i].0 == k,
    decreases entries.len(),
{
    if entries.len() > 0 {
        let init = entries.drop_last();
        lemma_entries_map_contains(init);
        assert forall|k: Seq<char>|
            #[trigger] entries_map(entries).contains_key(k) <==> exists|i: int|
                0 <= i < entries.len() && #[trigger] entries[i].0 == k by {
            assert(entries_map(entries) == entries_map(init).insert(
                entries.last().0,
                entries.last().1,
            ));
            if entries_map(entries).contains_key(k) && k != entries.last().0 {
                assert(entries_map(init).contains_key(k));
                let i = choose|i: int| 0 <= i < init.len() && #[trigger] init[i].0 == k;
                assert(entries[i].0 == k);
            }
            if exists|i: int| 0 <= i < entries.len() && #[trigger] entries[i].0 == k {
                let i = choose|i: int| 0 <= i < entries.len() && #[trigger] entries[i].0 == k;
                if i < entries.len() - 1 {
                    assert(init[i].0 == k);
                }
            }
        }
    }
}

proof fn lemma_entries_map_value<V>(entries: Seq<(Seq<char>, V)>, i: int)
    requires
        keys_distinct(entries),
        0 <= i < entries.len(),
    ensures
        entries_map(entries).contains_key(entries[i].0),
        entries_map(entries)[entries[i].0] == entries[i].1,
    decreases entries.len(),
{
    if i < entries.len() - 1 {
        let init = entries.drop_last();
        assert(init[i] == entries[i]);
        assert forall|a: int, b: int|
            0 <= a < init.len() && 0 <= b < init.len() && a != b implies #[trigger] init[a].0
            != #[trigger] init[b].0 by {
            assert(init[a] == entries[a] && init[b] == entries[b]);
        }
        lemma_entries_map_value(init, i);
        assert(entries[i].0 != entries[entries.len() - 1].0);
    }
}

proof fn lemma_entries_map_update<V>(entries: Seq<(Seq<char>, V)>, i: int, v: V)
    requires
        keys_distinct(entries),
        0 <= i < entries.len(),
    ensures
        keys_distinct(entries.update(i, (entries[i].0, v))),
        entries_map(entries.update(i, (entries[i].0, v))) == entries_map(entries).insert(
            entries[i].0,
            v,
        ),
    decreases entries.len(),
{
    let k = entries[i].0;
    let updated = entries.update(i, (k, v));
    assert forall|a: int, b: int|
        0 <= a < updated.len() && 0 <= b < updated.len() && a != b implies #[trigger] updated[a].0
        != #[trigger] updated[b].0 by {
        assert(updated[a].0 == entries[a].0 && updated[b].0 == entries[b].0);
    }
    let init = entries.drop_last();
    assert forall|a: int, b: int|
        0 <= a < init.len() && 0 <= b < init.len() && a != b implies #[trigger] init[a].0
        != #[trigger] init[b].0 by {
        assert(init[a] == entries[a] && init[b] == entries[b]);
    }
    if i == entries.len() - 1 {
        assert(updated.drop_last() =~= init);
        assert(entries_map(updated) =~= entries_map(entries).insert(k, v));
    } else {
        lemma_entries_map_update(init, i, v);
        assert(updated.drop_last() =~= init.update(i, (k, v)));
        assert(updated.last() == entries.last());
        assert(k != entries.last().0);
        assert(entries_map(updated) =~= entries_map(entries).insert(k, v));
    }
}

proof fn lemma_entries_map_len<V>(entries: Seq<(Seq<char>, V)>)
    requires
        keys_distinct(entries),
    ensures
        entries_map(entries).dom().finite(),
        entries_map(entries).len() == entries.len(),
    decreases entries.len(),
{
    if entries.len() > 0 {
        let init = entries.drop_last();
        assert forall|a: int, b: int|
            0 <= a < init.len() && 0 <= b < init.len() && a != b implies #[trigger] init[a].0
            != #[trigger] init[b].0 by {
            assert(init[a] == entries[a] && init[b] == entries[b]);
        }
        lemma_entries_map_len(init);
        lemma_entries_map_contains(init);
        let last = entries.last().0;
        assert(!entries_map(init).contains_key(last)) by {
            if entries_map(init).contains_key(last) {
                let i = choose|i: int| 0 <= i < init.len() && #[trigger] init[i].0 == last;
                assert(entries[i].0 == entries[entries.len() - 1].0);
            }
        }
        assert(entries_map(entries).dom() =~= entries_map(init).dom().insert(last));
    }
}

} // verus!
