//! A small name-to-handle map, backed by a vector of pairs with unique
//! keys, abstracted as a `Map` of key views to handles.
use vstd::prelude::*;

use crate::entry::Entry;

verus! {

/// The map a sequence of key/handle pairs represents; a later pair with
/// the same key wins.
pub open spec fn map_of(items: Seq<(String, Entry)>) -> Map<Seq<char>, Entry>
    decreases items.len(),
{
    if items.len() == 0 {
        Map::empty()
    } else {
        map_of(items.drop_last()).insert(items.last().0@, items.last().1)
    }
}

/// A key is in the map exactly when some pair holds it.
proof fn lemma_map_of_contains(items: Seq<(String, Entry)>, k: Seq<char>)
    ensures
        map_of(items).contains_key(k) <==> exists|i: int| 0 <= i < items.len() && items[i].0@ == k,
    decreases items.len(),
{
    if items.len() > 0 {
        lemma_map_of_contains(items.drop_last(), k);
        if map_of(items).contains_key(k) {
            if items.last().0@ == k {
                assert(items[items.len() - 1].0@ == k);
            }
        }
        if exists|i: int| 0 <= i < items.len() && items[i].0@ == k {
            let i = choose|i: int| 0 <= i < items.len() && items[i].0@ == k;
            if i < items.len() - 1 {
                assert(items.drop_last()[i].0@ == k);
            }
        }
    }
}

/// With unique keys, the pair holding a key gives the map's value at it.
proof fn lemma_map_of_get(items: Seq<(String, Entry)>, i: int)
    requires
        0 <= i < items.len(),
        forall|a: int, b: int|
            #![trigger items[a].0, items[b].0]
            0 <= a < b < items.len() ==> items[a].0@ != items[b].0@,
    ensures
        map_of(items).contains_key(items[i].0@),
        map_of(items)[items[i].0@] == items[i].1,
    decreases items.len(),
{
    if i == items.len() - 1 {
    } else {
        assert(items.drop_last()[i] == items[i]);
        lemma_map_of_get(items.drop_last(), i);
        assert(items[i].0@ != items.last().0@);
    }
}

/// Replacing the pair that holds a key is insertion into the map.
proof fn lemma_map_of_update(items: Seq<(String, Entry)>, i: int, p: (String, Entry))
    requires
        0 <= i < items.len(),
        forall|a: int, b: int|
            #![trigger items[a].0, items[b].0]
            0 <= a < b < items.len() ==> items[a].0@ != items[b].0@,
        p.0@ == items[i].0@,
    ensures
        map_of(items.update(i, p)) == map_of(items).insert(p.0@, p.1),
    decreases items.len(),
{
    let u = items.update(i, p);
    if i == items.len() - 1 {
        assert(u.drop_last() =~= items.drop_last());
        assert(u.last() == p);
        assert(map_of(items.drop_last()).insert(items.last().0@, items.last().1).insert(p.0@, p.1)
            =~= map_of(items.drop_last()).insert(p.0@, p.1));
    } else {
        assert(u.drop_last() =~= items.drop_last().update(i, p));
        assert(u.last() == items.last());
        lemma_map_of_update(items.drop_last(), i, p);
        assert(items[i].0@ != items.last().0@);
        assert(map_of(items.drop_last()).insert(p.0@, p.1).insert(items.last().0@, items.last().1)
            =~= map_of(items.drop_last()).insert(items.last().0@, items.last().1).insert(
            p.0@,
            p.1,
        ));
    }
}

/// Cache of resolved entry handles, keyed by name.
#[derive(Debug)]
pub(crate) struct EntryCache {
    items: Vec<(String, Entry)>,
}

impl View for EntryCache {
    type V = Map<Seq<char>, Entry>;

    closed spec fn view(&self) -> Map<Seq<char>, Entry> {
        map_of(self.items@)
    }
}

impl EntryCache {
    /// Well-formed: no key occurs twice.
    pub(crate) closed spec fn wf(&self) -> bool {
        forall|a: int, b: int|
            #![trigger self.items@[a].0, self.items@[b].0]
            0 <= a < b < self.items@.len() ==> self.items@[a].0@ != self.items@[b].0@
    }

    /// An empty cache.
    pub(crate) fn new() -> (c: EntryCache)
        ensures
            c@ == Map::<Seq<char>, Entry>::empty(),
            c.wf(),
    {
        EntryCache { items: Vec::new() }
    }

    /// Looks a name up.
    pub(crate) fn lookup(&self, key: &String) -> (r: Option<Entry>)
        requires
            self.wf(),
        ensures
            r is Some <==> self@.contains_key(key@),
            r matches Some(e) ==> self@.contains_key(key@) && self@[key@] == e,
    {
        let n = self.items.len();
        let mut i: usize = 0;
        while i < n
            invariant
                self.wf(),
                n == self.items@.len(),
                i <= n,
                forall|j: int| 0 <= j < i ==> self.items@[j].0@ != key@,
            decreases n - i,
        {
            if self.items[i].0 == *key {
                proof {
                    lemma_map_of_get(self.items@, i as int);
                }
                return Some(self.items[i].1);
            }
            i = i + 1;
        }
        proof {
            lemma_map_of_contains(self.items@, key@);
        }
        None
    }

    /// Binds a name to a handle, replacing any earlier binding.
    pub(crate) fn insert(&mut self, key: String, e: Entry)
        requires
            old(self).wf(),
        ensures
            final(self).wf(),
            final(self)@ == old(self)@.insert(key@, e),
    {
        let n = self.items.len();
        let mut i: usize = 0;
        while i < n
            invariant
                *self == *old(self),
                self.wf(),
                n == self.items@.len(),
                i <= n,
                forall|j: int| 0 <= j < i ==> self.items@[j].0@ != key@,
            decreases n - i,
        {
            if self.items[i].0 == key {
                proof {
                    lemma_map_of_update(self.items@, i as int, (key, e));
                }
                self.items.set(i, (key, e));
                return ;
            }
            i = i + 1;
        }
        self.items.push((key, e));
        proof {
            assert(self.items@.drop_last() =~= old(self).items@);
        }
    }
}

} // verus!
