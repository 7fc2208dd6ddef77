//! Hierarchical, prefix-scoped tables: short relative names composed onto a
//! path prefix, with a sticky cache of resolved handles.
use vstd::prelude::*;
use vstd::string::*;

use crate::cache::EntryCache;
use crate::entry::{Entry, EntryMask, EntryType};
use crate::instance::{Instance, InstanceView, selected};
use crate::value::{Value, wire_data_of};

verus! {

/// The mathematical model of a table: its path prefix and its cache of
/// resolved handles by name.
#[verifier::ext_equal]
pub struct TableView {
    pub prefix: Seq<char>,
    pub cache: Map<Seq<char>, Entry>,
}

impl TableView {
    /// The key a name is cached under. Note the asymmetry with
    /// [`Self::full_path`]: the cache key omits the separator. This
    /// mirrors the service bindings this library models; keeping it makes
    /// cached behavior reproducible.
    pub open spec fn cache_key(self, name: Seq<char>) -> Seq<char> {
        self.prefix + name
    }

    /// The full path a name resolves to under this table's prefix.
    pub open spec fn full_path(self, name: Seq<char>) -> Seq<char> {
        self.prefix + "/"@ + name
    }
}

/// The cache after every enumerated entry has been recorded under its own
/// full path.
pub open spec fn cached_after(
    m: Map<Seq<char>, Entry>,
    entries: Seq<Entry>,
    iv: InstanceView,
) -> Map<Seq<char>, Entry>
    decreases entries.len(),
{
    if entries.len() == 0 {
        m
    } else {
        cached_after(m, entries.drop_last(), iv).insert(
            iv.records[entries.last().spec_id()].path,
            entries.last(),
        )
    }
}

/// A hierarchical, prefix-scoped cache of entry handles.
///
/// A table owns its prefix and its cache exclusively; sub-tables get an
/// extended prefix and an independent, empty cache. The cache is sticky: it
/// is never invalidated, which is sound because a handle is a resolution
/// result, not a live binding.
#[derive(Debug)]
pub struct NetworkTable {
    prefix: String,
    entry_cache: EntryCache,
}

impl View for NetworkTable {
    type V = TableView;

    closed spec fn view(&self) -> TableView {
        TableView { prefix: self.prefix@, cache: self.entry_cache@ }
    }
}

impl NetworkTable {
    /// Well-formed: the cache keeps one binding per name.
    pub closed spec fn wf(&self) -> bool {
        self.entry_cache.wf()
    }

    /// A table scoped under the given prefix, with an empty cache.
    pub fn new(prefix: String) -> (t: NetworkTable)
        ensures
            t@.prefix == prefix@,
            t@.cache == Map::<Seq<char>, Entry>::empty(),
            t.wf(),
    {
        NetworkTable { prefix, entry_cache: EntryCache::new() }
    }

    /// A sub-table: the prefix extended by one path component, and a fresh,
    /// independent cache. Nothing of this table's cache is shared with it.
    pub fn get_subtable(&self, key: &str) -> (t: NetworkTable)
        ensures
            t@.prefix == self@.prefix + "/"@ + key@,
            t@.cache == Map::<Seq<char>, Entry>::empty(),
            t.wf(),
    {
        NetworkTable {
            prefix: self.prefix.clone().concat("/").concat(key),
            entry_cache: EntryCache::new(),
        }
    }

    /// Resolves a relative name to an entry handle, through the cache.
    ///
    /// On a hit the cached handle comes back and nothing changes anywhere;
    /// on a miss the store resolves `prefix + "/" + name` and the handle is
    /// cached before it is returned. Two calls with the same name therefore
    /// return equal handles.
    pub fn get(&mut self, inst: &mut Instance, name: &str) -> (e: Entry)
        requires
            old(self).wf(),
            old(inst)@.wf(),
        ensures
            final(self).wf(),
            final(inst)@.wf(),
            final(self)@.prefix == old(self)@.prefix,
            final(self)@.cache.contains_key(old(self)@.cache_key(name@)),
            final(self)@.cache[old(self)@.cache_key(name@)] == e,
            old(self)@.cache.contains_key(old(self)@.cache_key(name@)) ==> {
                &&& e == old(self)@.cache[old(self)@.cache_key(name@)]
                &&& final(self)@ == old(self)@
                &&& final(inst)@ == old(inst)@
            },
            !old(self)@.cache.contains_key(old(self)@.cache_key(name@)) ==> {
                &&& final(inst)@ == old(inst)@.resolved(old(self)@.full_path(name@))
                &&& e.spec_id() == old(inst)@.resolve_handle(old(self)@.full_path(name@))
                &&& final(self)@.cache == old(self)@.cache.insert(old(self)@.cache_key(name@), e)
            },
    {
        let cache_key = self.prefix.clone().concat(name);
        match self.entry_cache.lookup(&cache_key) {
            Some(e) => e,
            None => {
                let path = self.prefix.clone().concat("/").concat(name);
                let e = inst.get_entry(path.as_str());
                self.entry_cache.insert(cache_key, e);
                e
            },
        }
    }

    /// Resolves a name and writes a value to it: equivalent to
    /// [`Self::get`] followed by a set on the result.
    pub fn set(&mut self, inst: &mut Instance, name: &str, value: Value) -> (r: Result<
        (),
        EntryType,
    >)
        requires
            old(self).wf(),
            old(inst)@.wf(),
        ensures
            final(self).wf(),
            final(inst)@.wf(),
            final(self)@.prefix == old(self)@.prefix,
            ({
                let key = old(self)@.cache_key(name@);
                let hit = old(self)@.cache.contains_key(key);
                let resolved = if hit {
                    old(inst)@
                } else {
                    old(inst)@.resolved(old(self)@.full_path(name@))
                };
                let e = final(self)@.cache[key];
                let h = e.spec_id();
                &&& final(self)@.cache.contains_key(key)
                &&& (hit ==> e == old(self)@.cache[key] && final(self)@ == old(self)@)
                &&& (!hit ==> h == old(inst)@.resolve_handle(old(self)@.full_path(name@))
                    && final(self)@.cache == old(self)@.cache.insert(key, e))
                &&& (r is Ok <==> resolved.can_set(h, wire_data_of(value@)))
                &&& (r is Ok ==> final(inst)@ == resolved.after_set(h, wire_data_of(value@)))
                &&& (r is Err ==> final(inst)@ == resolved)
                &&& (r matches Err(t) ==> t == resolved.type_of(h))
            }),
    {
        let e = self.get(inst, name);
        e.set(inst, value)
    }

    /// Alias of [`Self::set`], kept for callers that spell it `put`.
    pub fn put(&mut self, inst: &mut Instance, key: &str, val: Value) -> (r: Result<
        (),
        EntryType,
    >)
        requires
            old(self).wf(),
            old(inst)@.wf(),
        ensures
            final(self).wf(),
            final(inst)@.wf(),
            final(self)@.prefix == old(self)@.prefix,
            ({
                let ck = old(self)@.cache_key(key@);
                let hit = old(self)@.cache.contains_key(ck);
                let resolved = if hit {
                    old(inst)@
                } else {
                    old(inst)@.resolved(old(self)@.full_path(key@))
                };
                let e = final(self)@.cache[ck];
                let h = e.spec_id();
                &&& final(self)@.cache.contains_key(ck)
                &&& (hit ==> e == old(self)@.cache[ck] && final(self)@ == old(self)@)
                &&& (!hit ==> h == old(inst)@.resolve_handle(old(self)@.full_path(key@))
                    && final(self)@.cache == old(self)@.cache.insert(ck, e))
                &&& (r is Ok <==> resolved.can_set(h, wire_data_of(val@)))
                &&& (r is Ok ==> final(inst)@ == resolved.after_set(h, wire_data_of(val@)))
                &&& (r is Err ==> final(inst)@ == resolved)
                &&& (r matches Err(t) ==> t == resolved.type_of(h))
            }),
    {
        let e = self.get(inst, key);
        e.set(inst, val)
    }

    /// Enumerates the existing entries under `self.prefix + prefix` whose
    /// type passes the mask, caching each returned entry under its own full
    /// path. The store itself is only read.
    pub fn get_filtered(&mut self, inst: &Instance, prefix: &str, types: EntryMask) -> (r: Vec<
        Entry,
    >)
        requires
            old(self).wf(),
            inst@.wf(),
        ensures
            final(self).wf(),
            final(self)@.prefix == old(self)@.prefix,
            forall|k: int|
                0 <= k < r@.len() ==> selected(
                    inst@,
                    old(self)@.prefix + prefix@,
                    types,
                    (#[trigger] r@[k]).spec_id(),
                ),
            forall|h: int|
                #[trigger] selected(inst@, old(self)@.prefix + prefix@, types, h) ==> exists|k: int|
                    0 <= k < r@.len() && r@[k].spec_id() == h,
            forall|k1: int, k2: int|
                0 <= k1 < k2 < r@.len() ==> r@[k1].spec_id() < r@[k2].spec_id(),
            final(self)@.cache == cached_after(old(self)@.cache, r@, inst@),
    {
        let full = self.prefix.clone().concat(prefix);
        let entries = inst.get_entries_filtered(full.as_str(), types);
        let n = entries.len();
        let mut k: usize = 0;
        while k < n
            invariant
                self.wf(),
                inst@.wf(),
                n == entries@.len(),
                k <= n,
                self@.prefix == old(self)@.prefix,
                forall|j: int|
                    0 <= j < n ==> inst@.valid((#[trigger] entries@[j]).spec_id()),
                self@.cache == cached_after(old(self)@.cache, entries@.take(k as int), inst@),
            decreases n - k,
        {
            let e = entries[k];
            match e.name(inst) {
                Some(entry_name) => {
                    self.entry_cache.insert(entry_name, e);
                },
                None => {},
            }
            proof {
                assert(entries@.take(k + 1).drop_last() =~= entries@.take(k as int));
                assert(entries@.take(k + 1).last() == entries@[k as int]);
            }
            k = k + 1;
        }
        proof {
            assert(entries@.take(n as int) =~= entries@);
        }
        entries
    }
}

} // verus!
