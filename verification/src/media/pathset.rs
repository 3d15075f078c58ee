//! A set of camera paths: favourites, files on disk, thumbnails already asked for.

use vstd::prelude::*;

use crate::text::str_eq;

verus! {

/// Distinct paths, in the order they were added.
#[derive(Debug, Clone, Default)]
pub struct PathSet {
    items: Vec<String>,
}

pub open spec fn path_views(items: Seq<String>) -> Seq<Seq<char>> {
    items.map_values(|item: String| item@)
}

impl View for PathSet {
    type V = Set<Seq<char>>;

    closed spec fn view(&self) -> Set<Seq<char>> {
        path_views(self.items@).to_set()
    }
}

impl PathSet {
    /// No path is held twice.
    pub closed spec fn wf(&self) -> bool {
        path_views(self.items@).no_duplicates()
    }

    pub closed spec fn spec_len(&self) -> nat {
        self.items@.len()
    }

    pub fn new() -> (set: Self)
        ensures
            set.wf(),
            set@ == Set::<Seq<char>>::empty(),
    {
        let set = PathSet { items: Vec::new() };
        proof {
            assert(path_views(set.items@) =~= Seq::<Seq<char>>::empty());
            assert(set@ =~= Set::<Seq<char>>::empty());
        }
        set
    }

    fn index_of(&self, path: &str) -> (at: Option<usize>)
        ensures
            at matches Some(i) ==> i < self.items@.len() && self.items@[i as int]@ == path@,
            at is None ==> !self@.contains(path@),
    {
        let mut i: usize = 0;
        while i < self.items.len()
            invariant
                i <= self.items@.len(),
                forall|k: int| 0 <= k < i ==> #[trigger] self.items@[k]@ != path@,
            decreases self.items@.len() - i,
        {
            if str_eq(self.items[i].as_str(), path) {
                return Some(i);
            }
            i = i + 1;
        }
        proof {
            if self@.contains(path@) {
                let k = choose|k: int|
                    0 <= k < path_views(self.items@).len() && path_views(self.items@)[k] == path@;
                assert(self.items@[k]@ == path@);
            }
        }
        None
    }

    pub fn contains(&self, path: &str) -> (found: bool)
        ensures
            found == self@.contains(path@),
    {
        match self.index_of(path) {
            Some(i) => {
                proof {
                    assert(path_views(self.items@)[i as int] == path@);
                }
                true
            },
            None => false,
        }
    }

    /// Adds a path; false when it was already there.
    pub fn insert(&mut self, path: String) -> (added: bool)
        requires
            old(self).wf(),
        ensures
            final(self).wf(),
            final(self)@ == old(self)@.insert(path@),
            added == !old(self)@.contains(path@),
    {
        if self.contains(path.as_str()) {
            proof {
                assert(old(self)@.insert(path@) =~= old(self)@);
            }
            return false;
        }
        let ghost view = path@;
        self.items.push(path);
        proof {
            assert(path_views(self.items@) =~= path_views(old(self).items@).push(view));
            path_views(old(self).items@).lemma_push_to_set_commute(view);
            assert(self@ =~= old(self)@.insert(view));
        }
        true
    }

    /// Drops a path if it is there.
    pub fn remove(&mut self, path: &str)
        requires
            old(self).wf(),
        ensures
            final(self).wf(),
            final(self)@ == old(self)@.remove(path@),
    {
        match self.index_of(path) {
            None => {
                proof {
                    assert(old(self)@.remove(path@) =~= old(self)@);
                }
            },
            Some(i) => {
                let ghost before = path_views(self.items@);
                self.items.remove(i);
                proof {
                    let after = path_views(self.items@);
                    assert(after =~= before.remove(i as int));
                    assert forall|a: int, b: int|
                        0 <= a < after.len() && 0 <= b < after.len() && a != b implies after[a]
                        != after[b] by {
                        let oa = if a < i { a } else { a + 1 };
                        let ob = if b < i { b } else { b + 1 };
                        assert(after[a] == before[oa]);
                        assert(after[b] == before[ob]);
                    }
                    assert forall|p: Seq<char>| #[trigger] self@.contains(p) == old(self)@.remove(
                        path@,
                    ).contains(p) by {
                        if self@.contains(p) {
                            let k = choose|k: int| 0 <= k < after.len() && after[k] == p;
                            let ok = if k < i { k } else { k + 1 };
                            assert(before[ok] == p);
                            assert(before[i as int] == path@);
                            assert(ok != i);
                            assert(p != path@);
                        }
                        if old(self)@.remove(path@).contains(p) {
                            let k = choose|k: int| 0 <= k < before.len() && before[k] == p;
                            assert(k != i);
                            if k < i {
                                assert(after[k] == p);
                            } else {
                                assert(after[k - 1] == p);
                            }
                        }
                    }
                    assert(self@ =~= old(self)@.remove(path@));
                }
            },
        }
    }

    pub fn len(&self) -> (n: usize)
        ensures
            n == self.spec_len(),
    {
        self.items.len()
    }

    /// The number of paths is the size of the set.
    pub proof fn lemma_len_is_size(&self)
        requires
            self.wf(),
        ensures
            self@.len() == self.spec_len(),
            self@.finite(),
    {
        path_views(self.items@).unique_seq_to_set();
    }
}

/// A value for each of a set of camera paths.
#[derive(Debug, Clone)]
pub struct PathMap<V> {
    entries: Vec<(String, V)>,
}

pub open spec fn entry_keys<V>(entries: Seq<(String, V)>) -> Seq<Seq<char>> {
    entries.map_values(|entry: (String, V)| entry.0@)
}

/// The value held for each path, later entries over earlier ones.
pub open spec fn entries_map<V>(entries: Seq<(String, V)>) -> Map<Seq<char>, V>
    decreases entries.len(),
{
    if entries.len() == 0 {
        Map::empty()
    } else {
        entries_map(entries.drop_last()).insert(entries.last().0@, entries.last().1)
    }
}

proof fn lemma_entries_absent<V>(entries: Seq<(String, V)>, path: Seq<char>)
    requires
        forall|k: int| 0 <= k < entries.len() ==> #[trigger] entries[k].0@ != path,
    ensures
        !entries_map(entries).contains_key(path),
    decreases entries.len(),
{
    if entries.len() > 0 {
        assert(entries.last().0@ != path);
        lemma_entries_absent(entries.drop_last(), path);
    }
}

proof fn lemma_entries_lookup<V>(entries: Seq<(String, V)>, i: int)
    requires
        0 <= i < entries.len(),
        entry_keys(entries).no_duplicates(),
    ensures
        entries_map(entries).contains_key(entries[i].0@),
        entries_map(entries)[entries[i].0@] == entries[i].1,
    decreases entries.len(),
{
    let rest = entries.drop_last();
    if i < entries.len() - 1 {
        assert(entry_keys(rest) =~= entry_keys(entries).drop_last());
        assert(entry_keys(entries)[i] != entry_keys(entries)[entries.len() - 1]);
        lemma_entries_lookup(rest, i);
    }
}

proof fn lemma_entries_update<V>(entries: Seq<(String, V)>, i: int, key: String, value: V)
    requires
        0 <= i < entries.len(),
        entries[i].0@ == key@,
        entry_keys(entries).no_duplicates(),
    ensures
        entries_map(entries.update(i, (key, value))) == entries_map(entries).insert(key@, value),
    decreases entries.len(),
{
    let updated = entries.update(i, (key, value));
    let rest = entries.drop_last();
    if i == entries.len() - 1 {
        assert(updated.drop_last() =~= rest);
        assert(!entries_map(rest).contains_key(key@)) by {
            assert forall|k: int| 0 <= k < rest.len() implies #[trigger] rest[k].0@ != key@ by {
                assert(entry_keys(entries)[k] != entry_keys(entries)[i]);
            }
            lemma_entries_absent(rest, key@);
        }
        assert(entries_map(updated) =~= entries_map(entries).insert(key@, value));
    } else {
        assert(entry_keys(rest) =~= entry_keys(entries).drop_last());
        lemma_entries_update(rest, i, key, value);
        assert(updated.drop_last() =~= rest.update(i, (key, value)));
        assert(entries.last().0@ != key@) by {
            assert(entry_keys(entries)[i] != entry_keys(entries)[entries.len() - 1]);
        }
        assert(entries_map(updated) =~= entries_map(entries).insert(key@, value));
    }
}

proof fn lemma_entries_remove<V>(entries: Seq<(String, V)>, i: int)
    requires
        0 <= i < entries.len(),
        entry_keys(entries).no_duplicates(),
    ensures
        entries_map(entries.remove(i)) == entries_map(entries).remove(entries[i].0@),
        entry_keys(entries.remove(i)).no_duplicates(),
    decreases entries.len(),
{
    let removed = entries.remove(i);
    let key = entries[i].0@;
    let rest = entries.drop_last();
    assert(entry_keys(removed) =~= entry_keys(entries).remove(i));
    assert forall|a: int, b: int|
        0 <= a < entry_keys(removed).len() && 0 <= b < entry_keys(removed).len() && a != b
        implies entry_keys(removed)[a] != entry_keys(removed)[b] by {
        let oa = if a < i { a } else { a + 1 };
        let ob = if b < i { b } else { b + 1 };
        assert(entry_keys(removed)[a] == entry_keys(entries)[oa]);
        assert(entry_keys(removed)[b] == entry_keys(entries)[ob]);
    }
    if i == entries.len() - 1 {
        assert(removed =~= rest);
        assert(!entries_map(rest).contains_key(key)) by {
            assert forall|k: int| 0 <= k < rest.len() implies #[trigger] rest[k].0@ != key by {
                assert(entry_keys(entries)[k] != entry_keys(entries)[i]);
            }
            lemma_entries_absent(rest, key);
        }
        assert(entries_map(removed) =~= entries_map(entries).remove(key));
    } else {
        assert(entry_keys(rest) =~= entry_keys(entries).drop_last());
        lemma_entries_remove(rest, i);
        assert(removed.drop_last() =~= rest.remove(i));
        assert(removed.last() == entries.last());
        assert(entries.last().0@ != key) by {
            assert(entry_keys(entries)[i] != entry_keys(entries)[entries.len() - 1]);
        }
        assert(entries_map(removed) =~= entries_map(entries).remove(key));
    }
}

impl<V> View for PathMap<V> {
    type V = Map<Seq<char>, V>;

    closed spec fn view(&self) -> Map<Seq<char>, V> {
        entries_map(self.entries@)
    }
}

impl<V> PathMap<V> {
    /// Each path is held once.
    pub closed spec fn wf(&self) -> bool {
        entry_keys(self.entries@).no_duplicates()
    }

    pub fn new() -> (map: Self)
        ensures
            map.wf(),
            map@ == Map::<Seq<char>, V>::empty(),
    {
        let map = PathMap { entries: Vec::new() };
        proof {
            assert(entry_keys(map.entries@) =~= Seq::<Seq<char>>::empty());
        }
        map
    }

    fn index_of(&self, path: &str) -> (at: Option<usize>)
        ensures
            at matches Some(i) ==> i < self.entries@.len() && self.entries@[i as int].0@ == path@,
            at is None ==> forall|k: int|
                0 <= k < self.entries@.len() ==> #[trigger] self.entries@[k].0@ != path@,
    {
        let mut i: usize = 0;
        while i < self.entries.len()
            invariant
                i <= self.entries@.len(),
                forall|k: int| 0 <= k < i ==> #[trigger] self.entries@[k].0@ != path@,
            decreases self.entries@.len() - i,
        {
            if str_eq(self.entries[i].0.as_str(), path) {
                return Some(i);
            }
            i = i + 1;
        }
        None
    }

    /// The value held for `path`.
    pub fn get(&self, path: &str) -> (value: Option<&V>)
        requires
            self.wf(),
        ensures
            value matches Some(v) ==> self@.contains_key(path@) && self@[path@] == *v,
            value is None ==> !self@.contains_key(path@),
    {
        match self.index_of(path) {
            Some(i) => {
                proof {
                    lemma_entries_lookup(self.entries@, i as int);
                }
                Some(&self.entries[i].1)
            },
            None => {
                proof {
                    lemma_entries_absent(self.entries@, path@);
                }
                None
            },
        }
    }

    pub fn contains_key(&self, path: &str) -> (found: bool)
        requires
            self.wf(),
        ensures
            found == self@.contains_key(path@),
    {
        match self.get(path) {
            Some(_) => true,
            None => false,
        }
    }

    /// Holds `value` for `path`, over whatever was held before.
    pub fn insert(&mut self, path: String, value: V)
        requires
            old(self).wf(),
        ensures
            final(self).wf(),
            final(self)@ == old(self)@.insert(path@, value),
    {
        match self.index_of(path.as_str()) {
            Some(i) => {
                let ghost before = self.entries@;
                let ghost key = path;
                self.entries.set(i, (path, value));
                proof {
                    lemma_entries_update(before, i as int, key, value);
                    assert(entry_keys(self.entries@) =~= entry_keys(before));
                }
            },
            None => {
                let ghost before = self.entries@;
                let ghost key = path@;
                self.entries.push((path, value));
                proof {
                    assert(self.entries@.drop_last() =~= before);
                    assert(entry_keys(self.entries@) =~= entry_keys(before).push(key));
                    assert forall|k: int| 0 <= k < entry_keys(before).len() implies entry_keys(
                        before,
                    )[k] != key by {
                        assert(before[k].0@ != key);
                    }
                }
            },
        }
    }

    /// Drops whatever is held for `path`.
    pub fn remove(&mut self, path: &str)
        requires
            old(self).wf(),
        ensures
            final(self).wf(),
            final(self)@ == old(self)@.remove(path@),
    {
        match self.index_of(path) {
            Some(i) => {
                let ghost before = self.entries@;
                self.entries.remove(i);
                proof {
                    lemma_entries_remove(before, i as int);
                }
            },
            None => {
                proof {
                    lemma_entries_absent(self.entries@, path@);
                    assert(self@.remove(path@) =~= self@);
                }
            },
        }
    }
}

} // verus!
