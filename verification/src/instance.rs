//! The entry store an instance keeps: the client-side record of every
//! resolved key path and its current wire value.
//!
//! Resolution hands out dense handles into this store. The network side of
//! the service — transport, replication, connection bootstrap — is not part
//! of this core and lives with the embedding program.
use vstd::prelude::*;
use vstd::pervasive::VecAdditionalExecFns;
use vstd::seq_lib::*;

use crate::entry::{Entry, EntryMask, EntryType, entry_type_of_wire, wire_entry_type};
use crate::value::{ValueView, WireValue, WireView, WireDataView, is_value_data,
    lemma_wire_round_trip, value_of_wire, wire_data_of};
use crate::table::NetworkTable;
use crate::NetworkTime;

verus! {

/// The service's network-mode word: a small bitmask saying how an instance
/// is running. The embedding program obtains the raw word from the
/// transport layer.
#[derive(Copy, Clone, Debug, PartialEq, Eq, Structural, Hash)]
pub struct NetworkMode(pub u32);

impl NetworkMode {
    /// Wraps a raw mode word.
    pub fn new(raw: u32) -> (m: NetworkMode)
        ensures
            m == NetworkMode(raw),
    {
        NetworkMode(raw)
    }

    /// Running in server mode.
    pub fn server(&self) -> (b: bool)
        ensures
            b == (self.0 & 0x01 != 0),
    {
        self.0 & 0x01 != 0
    }

    /// Running in client mode.
    pub fn client(&self) -> (b: bool)
        ensures
            b == (self.0 & 0x02 != 0),
    {
        self.0 & 0x02 != 0
    }

    /// Still starting up, as either side.
    pub fn starting(&self) -> (b: bool)
        ensures
            b == (self.0 & 0x04 != 0),
    {
        self.0 & 0x04 != 0
    }

    /// Startup failed.
    pub fn failure(&self) -> (b: bool)
        ensures
            b == (self.0 & 0x08 != 0),
    {
        self.0 & 0x08 != 0
    }

    /// Not running at all: no mode bit is set.
    pub fn none(&self) -> (b: bool)
        ensures
            b == (self.0 == 0),
    {
        self.0 == 0
    }
}

/// One stored record: a full key path and, when the entry exists, its
/// current wire value. The wire value's stamp is the record's last-change
/// time.
#[derive(Debug)]
struct Record {
    path: String,
    stored: Option<WireValue>,
}

/// The mathematical model of one record.
#[verifier::ext_equal]
pub struct RecordView {
    pub path: Seq<char>,
    pub stored: Option<WireView>,
}

impl View for Record {
    type V = RecordView;

    closed spec fn view(&self) -> RecordView {
        RecordView {
            path: self.path@,
            stored: match self.stored {
                Option::Some(w) => Option::Some(w@),
                Option::None => Option::None,
            },
        }
    }
}

/// The mathematical model of an instance's store: the records by handle,
/// and the monotonic change counter.
#[verifier::ext_equal]
pub struct InstanceView {
    pub records: Seq<RecordView>,
    pub time: u64,
}

impl InstanceView {
    /// True of handles this store has handed out.
    pub open spec fn valid(self, h: int) -> bool {
        0 <= h < self.records.len()
    }

    /// The wire value currently stored under a handle, if any. An invalid
    /// handle behaves like an entry that does not exist.
    pub open spec fn stored_of(self, h: int) -> Option<WireView> {
        if self.valid(h) {
            self.records[h].stored
        } else {
            None
        }
    }

    /// True when an entry currently exists under the handle.
    pub open spec fn exists_at(self, h: int) -> bool {
        self.stored_of(h) is Some
    }

    /// The current type of the entry under a handle; `Unassigned` where no
    /// entry exists.
    pub open spec fn type_of(self, h: int) -> EntryType {
        match self.stored_of(h) {
            Some(w) => wire_entry_type(w.data),
            None => EntryType::Unassigned,
        }
    }

    /// The last-change stamp of the entry under a handle; zero where no
    /// entry exists.
    pub open spec fn stamp_of(self, h: int) -> u64 {
        match self.stored_of(h) {
            Some(w) => w.last_change,
            None => 0,
        }
    }

    /// True when some record holds this path.
    pub open spec fn has_path(self, p: Seq<char>) -> bool {
        exists|i: int| 0 <= i < self.records.len() && self.records[i].path == p
    }

    /// The handle of the record holding this path. Meaningful only where
    /// [`Self::has_path`] holds; unique by well-formedness.
    pub open spec fn handle_of(self, p: Seq<char>) -> int {
        choose|i: int| 0 <= i < self.records.len() && self.records[i].path == p
    }

    /// The store after resolving a path: unchanged if the path is already
    /// known, else extended by one fresh record with no value.
    pub open spec fn resolved(self, p: Seq<char>) -> InstanceView {
        if self.has_path(p) {
            self
        } else {
            InstanceView {
                records: self.records.push(RecordView { path: p, stored: None }),
                time: self.time,
            }
        }
    }

    /// The handle resolving a path yields.
    pub open spec fn resolve_handle(self, p: Seq<char>) -> int {
        if self.has_path(p) {
            self.handle_of(p)
        } else {
            self.records.len() as int
        }
    }

    /// The change counter after one more change; it saturates rather than
    /// wrap, so stamps stay monotonic.
    pub open spec fn next_time(self) -> u64 {
        if self.time < u64::MAX {
            (self.time + 1) as u64
        } else {
            u64::MAX
        }
    }

    /// True when a write of the given payload to the given handle is
    /// accepted: the handle is live and the entry is either unassigned or
    /// already of the payload's type.
    pub open spec fn can_set(self, h: int, d: WireDataView) -> bool {
        &&& self.valid(h)
        &&& (self.stored_of(h) matches Some(w) ==> wire_entry_type(w.data) == wire_entry_type(d))
    }

    /// The store after an accepted write: the record holds the payload
    /// under a fresh stamp, which the store itself assigns.
    pub open spec fn after_set(self, h: int, d: WireDataView) -> InstanceView {
        InstanceView {
            records: self.records.update(
                h,
                RecordView {
                    path: self.records[h].path,
                    stored: Some(WireView { last_change: self.next_time(), data: d }),
                },
            ),
            time: self.next_time(),
        }
    }

    /// Well-formed: paths are unique across records, every stored wire
    /// value carries an actual value tag (never unassigned or RPC), and no
    /// stamp runs ahead of the store's change counter.
    pub open spec fn wf(self) -> bool {
        &&& forall|i: int, j: int|
            #![trigger self.records[i].path, self.records[j].path]
            0 <= i < j < self.records.len() ==> self.records[i].path != self.records[j].path
        &&& forall|i: int|
            0 <= i < self.records.len() ==> ((#[trigger] self.records[i]).stored matches Some(w)
                ==> is_value_data(w.data) && w.last_change <= self.time)
    }
}

/// Law: last-change stamps are monotonic readings of the store's change
/// counter — no entry's stamp runs ahead of the current time.
pub proof fn lemma_stamp_bounded(iv: InstanceView, h: int)
    requires
        iv.wf(),
    ensures
        iv.stamp_of(h) <= iv.time,
{
    if iv.valid(h) {
        assert(iv.stored_of(h) == iv.records[h].stored);
    }
}

/// Law: a value accepted by a write reads back equal — after the write,
/// the entry exists and its stored wire payload reads as exactly the value
/// written.
pub proof fn lemma_write_read_coherent(iv: InstanceView, h: int, v: ValueView)
    requires
        iv.wf(),
        iv.can_set(h, wire_data_of(v)),
    ensures
        ({
            let post = iv.after_set(h, wire_data_of(v));
            &&& post.exists_at(h)
            &&& post.stored_of(h) matches Some(w) && value_of_wire(w.data) == v
        }),
{
    lemma_wire_round_trip(v, 0);
}

/// Law: resolving a path keeps the store well-formed, and resolution is
/// idempotent — resolving again changes nothing and yields the same
/// handle.
pub proof fn lemma_resolution_idempotent(iv: InstanceView, p: Seq<char>)
    requires
        iv.wf(),
    ensures
        iv.resolved(p).wf(),
        iv.resolved(p).has_path(p),
        iv.resolved(p).resolved(p) == iv.resolved(p),
        iv.resolved(p).resolve_handle(p) == iv.resolve_handle(p),
{
    if iv.has_path(p) {
    } else {
        let new = iv.resolved(p);
        let n = iv.records.len() as int;
        assert(new.records[n].path == p);
        assert(new.has_path(p));
        assert forall|i: int| 0 <= i < n implies new.records[i].path != p by {
            assert(new.records[i] == iv.records[i]);
        }
        let c = new.handle_of(p);
        assert(new.records[c].path == p);
        assert(c == n);
    }
}

/// Law: an entry resolved for a path never written does not exist — its
/// type is `Unassigned`, it holds no value, and its stamp is zero.
pub proof fn lemma_fresh_path_unassigned(iv: InstanceView, p: Seq<char>)
    requires
        iv.wf(),
        !iv.has_path(p),
    ensures
        iv.resolved(p).type_of(iv.resolve_handle(p)) == EntryType::Unassigned,
        !iv.resolved(p).exists_at(iv.resolve_handle(p)),
        iv.resolved(p).stamp_of(iv.resolve_handle(p)) == 0,
{
}

/// True of the handles a filtered enumeration selects: live, currently
/// existing, path under the prefix, and type passing the mask.
pub open spec fn selected(iv: InstanceView, prefix: Seq<char>, types: EntryMask, h: int) -> bool {
    &&& iv.valid(h)
    &&& iv.exists_at(h)
    &&& prefix.is_prefix_of(iv.records[h].path)
    &&& types.spec_accepts(iv.type_of(h))
}

/// An instance's store of resolved entries.
#[derive(Debug)]
pub struct Instance {
    records: Vec<Record>,
    time: u64,
}

impl View for Instance {
    type V = InstanceView;

    closed spec fn view(&self) -> InstanceView {
        InstanceView {
            records: Seq::new(self.records@.len(), |i: int| self.records@[i]@),
            time: self.time,
        }
    }
}

/// Tests whether one string starts with another.
fn str_starts_with(s: &String, prefix: &str) -> (r: bool)
    ensures
        r == prefix@.is_prefix_of(s@),
{
    let n = prefix.unicode_len();
    let m = s.as_str().unicode_len();
    if n > m {
        return false;
    }
    let sub = s.as_str().substring_char(0, n);
    let a = String::from_str(sub);
    let b = String::from_str(prefix);
    let r = a == b;
    proof {
        assert(sub@ == s@.subrange(0, n as int));
        if r {
            assert(prefix@ =~= s@.subrange(0, prefix@.len() as int));
        } else {
            assert(!(prefix@ =~= s@.subrange(0, prefix@.len() as int)));
        }
    }
    r
}

impl Instance {
    /// Creates an empty store with the change counter at zero.
    pub fn new() -> (r: Instance)
        ensures
            r@.records.len() == 0,
            r@.time == 0,
            r@.wf(),
    {
        Instance { records: Vec::new(), time: 0 }
    }

    /// The store's current monotonic time.
    pub fn now(&self) -> (t: NetworkTime)
        ensures
            t.spec_raw() == self@.time,
    {
        NetworkTime(self.time)
    }

    /// Resolves a full key path to a handle, creating an empty record on
    /// first sight. Resolution always succeeds — existence is a property of
    /// the entry's type — and is idempotent: the same path yields the same
    /// handle.
    pub fn get_entry(&mut self, key: &str) -> (e: Entry)
        requires
            old(self)@.wf(),
        ensures
            final(self)@.wf(),
            final(self)@ == old(self)@.resolved(key@),
            e.spec_id() == old(self)@.resolve_handle(key@),
            forall|i: int|
                0 <= i < old(self)@.records.len() && old(self)@.records[i].path == key@
                    ==> e.spec_id() == i,
            final(self)@.valid(e.spec_id()),
            final(self)@.records[e.spec_id()].path == key@,
            final(self)@.stored_of(e.spec_id()) == old(self)@.stored_of(e.spec_id()),
    {
        let owned: String = key.to_owned();
        let n = self.records.len();
        let mut i: usize = 0;
        while i < n
            invariant
                *self == *old(self),
                old(self)@.wf(),
                n == self.records.len(),
                i <= n,
                owned@ == key@,
                forall|j: int| 0 <= j < i ==> self@.records[j].path != key@,
            decreases n - i,
        {
            if self.records[i].path == owned {
                proof {
                    let iv = self@;
                    assert(iv.has_path(key@));
                    let c = iv.handle_of(key@);
                    if c != i {
                        assert(iv.records[c].path == iv.records[i as int].path);
                        assert(false);
                    }
                }
                return Entry::new(i);
            }
            i = i + 1;
        }
        proof {
            assert(!self@.has_path(key@));
        }
        self.records.push(Record { path: owned, stored: None });
        proof {
            assert(self@.records =~= old(self)@.records.push(
                RecordView { path: key@, stored: None },
            ));
            assert(self@ =~= old(self)@.resolved(key@));
        }
        Entry::new(n)
    }

    /// Reads the wire value stored under a handle, as a deep copy owned by
    /// the caller, who consumes (and thereby disposes) it exactly once.
    pub(crate) fn read_wire(&self, h: usize) -> (r: Option<WireValue>)
        ensures
            r is Some <==> self@.exists_at(h as int),
            r matches Some(w) ==> Some(w@) == self@.stored_of(h as int),
    {
        if h >= self.records.len() {
            return None;
        }
        match &self.records[h].stored {
            Some(w) => Some(w.duplicate()),
            None => None,
        }
    }

    /// The current type of the entry under a handle.
    pub(crate) fn type_at(&self, h: usize) -> (t: EntryType)
        ensures
            t == self@.type_of(h as int),
    {
        if h >= self.records.len() {
            return EntryType::Unassigned;
        }
        match &self.records[h].stored {
            Some(w) => entry_type_of_wire(&w.data),
            None => EntryType::Unassigned,
        }
    }

    /// The last-change stamp of the entry under a handle.
    pub(crate) fn stamp_at(&self, h: usize) -> (s: u64)
        ensures
            s == self@.stamp_of(h as int),
    {
        if h >= self.records.len() {
            return 0;
        }
        match &self.records[h].stored {
            Some(w) => w.last_change,
            None => 0,
        }
    }

    /// The path of the record under a handle, if the handle is live.
    pub(crate) fn path_at(&self, h: usize) -> (r: Option<String>)
        ensures
            r is Some <==> self@.valid(h as int),
            r matches Some(p) ==> p@ == self@.records[h as int].path,
    {
        if h >= self.records.len() {
            return None;
        }
        Some(self.records[h].path.clone())
    }

    /// Writes a wire value under a handle. Fails — leaving the store
    /// unchanged — when the handle is dead or the entry already holds a
    /// value of another type; on success the store assigns the
    /// authoritative stamp.
    pub(crate) fn write_wire(&mut self, h: usize, w: WireValue) -> (ok: bool)
        requires
            old(self)@.wf(),
            is_value_data(w@.data),
        ensures
            final(self)@.wf(),
            ok == old(self)@.can_set(h as int, w@.data),
            ok ==> final(self)@ == old(self)@.after_set(h as int, w@.data),
            !ok ==> final(self)@ == old(self)@,
    {
        if h >= self.records.len() {
            return false;
        }
        let compatible = match &self.records[h].stored {
            Some(cur) => {
                let ct = entry_type_of_wire(&cur.data);
                let nt = entry_type_of_wire(&w.data);
                ct == nt
            },
            None => true,
        };
        if !compatible {
            return false;
        }
        let t = if self.time < u64::MAX {
            self.time + 1
        } else {
            self.time
        };
        self.time = t;
        let path = self.records[h].path.clone();
        self.records.set(
            h,
            Record { path, stored: Some(WireValue { last_change: t, data: w.data }) },
        );
        proof {
            assert(self@.records =~= old(self)@.after_set(h as int, w@.data).records);
            assert(self@ =~= old(self)@.after_set(h as int, w@.data));
        }
        true
    }

    /// Enumerates the currently existing entries whose full path starts
    /// with the given prefix and whose type passes the mask, in ascending
    /// handle order.
    pub fn get_entries_filtered(&self, prefix: &str, types: EntryMask) -> (r: Vec<Entry>)
        ensures
            forall|k: int|
                0 <= k < r@.len() ==> selected(self@, prefix@, types, (#[trigger] r@[k]).spec_id()),
            forall|h: int|
                #[trigger] selected(self@, prefix@, types, h) ==> exists|k: int|
                    0 <= k < r@.len() && r@[k].spec_id() == h,
            forall|k1: int, k2: int|
                0 <= k1 < k2 < r@.len() ==> r@[k1].spec_id() < r@[k2].spec_id(),
    {
        let mut r: Vec<Entry> = Vec::new();
        let n = self.records.len();
        let mut i: usize = 0;
        while i < n
            invariant
                n == self.records.len(),
                i <= n,
                forall|k: int|
                    0 <= k < r@.len() ==> selected(
                        self@,
                        prefix@,
                        types,
                        (#[trigger] r@[k]).spec_id(),
                    ),
                forall|k: int| 0 <= k < r@.len() ==> (#[trigger] r@[k]).spec_id() < i,
                forall|h: int|
                    0 <= h < i && #[trigger] selected(self@, prefix@, types, h) ==> exists|k: int|
                        0 <= k < r@.len() && r@[k].spec_id() == h,
                forall|k1: int, k2: int|
                    0 <= k1 < k2 < r@.len() ==> r@[k1].spec_id() < r@[k2].spec_id(),
            decreases n - i,
        {
            let keep = match &self.records[i].stored {
                Some(w) => {
                    let ty = entry_type_of_wire(&w.data);
                    types.accepts(ty) && str_starts_with(&self.records[i].path, prefix)
                },
                None => false,
            };
            let ghost r_pre = r@;
            if keep {
                r.push(Entry::new(i));
            }
            i = i + 1;
            proof {
                if keep {
                    assert(r@[r@.len() - 1].spec_id() == i - 1);
                } else {
                    assert(!selected(self@, prefix@, types, i - 1));
                }
                assert forall|h: int| 0 <= h < i && #[trigger] selected(
                    self@,
                    prefix@,
                    types,
                    h,
                ) implies exists|k: int| 0 <= k < r@.len() && r@[k].spec_id() == h by {
                    if h < i - 1 {
                        let k0 = choose|k: int|
                            0 <= k < r_pre.len() && r_pre[k].spec_id() == h;
                        assert(r@[k0].spec_id() == h);
                    } else {
                        assert(r@[r@.len() - 1].spec_id() == h);
                    }
                }
            }
        }
        r
    }

    /// Enumerates every currently existing entry, in ascending handle
    /// order.
    pub fn get_all_entries(&self) -> (r: Vec<Entry>)
        ensures
            forall|k: int| 0 <= k < r@.len() ==> self@.exists_at((#[trigger] r@[k]).spec_id()),
            forall|h: int|
                self@.valid(h) && #[trigger] self@.exists_at(h) ==> exists|k: int|
                    0 <= k < r@.len() && r@[k].spec_id() == h,
            forall|k1: int, k2: int|
                0 <= k1 < k2 < r@.len() ==> r@[k1].spec_id() < r@[k2].spec_id(),
    {
        let r = self.get_entries_filtered("", EntryMask::all());
        proof {
            reveal_strlit("");
            assert(""@.len() == 0);
            assert forall|h: int| self@.valid(h) && #[trigger] self@.exists_at(h)
                implies selected(self@, ""@, EntryMask(0), h) by {
                assert(""@ =~= self@.records[h].path.subrange(0, 0));
            }
        }
        r
    }

    /// A table scoped under the given path prefix, with a fresh cache.
    pub fn get_table(&self, name: String) -> (t: NetworkTable)
        ensures
            t@.prefix == name@,
            t@.cache == Map::<Seq<char>, Entry>::empty(),
            t.wf(),
    {
        NetworkTable::new(name)
    }

    /// Deletes every entry: every record's value is cleared, while the
    /// handles and paths stay resolved.
    pub fn delete_all_entries(&mut self)
        requires
            old(self)@.wf(),
        ensures
            final(self)@.wf(),
            final(self)@.time == old(self)@.time,
            final(self)@.records.len() == old(self)@.records.len(),
            forall|h: int|
                0 <= h < old(self)@.records.len() ==> (#[trigger] final(self)@.records[h]).path
                    == old(self)@.records[h].path && final(self)@.records[h].stored is None,
    {
        let n = self.records.len();
        let mut cleared: Vec<Record> = Vec::new();
        let mut i: usize = 0;
        while i < n
            invariant
                *self == *old(self),
                old(self)@.wf(),
                n == self.records.len(),
                i <= n,
                cleared@.len() == i,
                forall|h: int|
                    0 <= h < i ==> (#[trigger] cleared@[h]@).path == old(self)@.records[h].path
                        && cleared@[h]@.stored is None,
            decreases n - i,
        {
            let path = self.records[i].path.clone();
            cleared.push(Record { path, stored: None });
            i = i + 1;
        }
        self.records = cleared;
        proof {
            assert forall|h: int| 0 <= h < old(self)@.records.len() implies (#[trigger] self@
                .records[h]).path == old(self)@.records[h].path && self@.records[h].stored
                is None by {
                assert(self@.records[h] == self.records@[h]@);
            }
        }
    }
}

} // verus!
