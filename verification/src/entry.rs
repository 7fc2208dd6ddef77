//! Entry types, the type-filter mask, and entry handles.
use vstd::prelude::*;
use vstd::pervasive::unreached;

use crate::value::{Value, WireData, WireDataView, from_wire, to_wire, value_of_wire,
    wire_data_of};
use crate::instance::Instance;
use crate::NetworkTime;

verus! {

/// The closed set of types an entry can have on the wire.
///
/// `Unassigned` means "no entry exists at this key". `Rpc` is recognized but
/// has no [`Value`] mapping: operations that would materialize it fail with
/// an explicit unsupported-type condition.
#[derive(Copy, Clone, Debug, Eq, PartialEq, Structural, Hash)]
pub enum EntryType {
    Boolean,
    BooleanArray,
    Double,
    DoubleArray,
    Raw,
    Rpc,
    String,
    StringArray,
    Unassigned,
}

impl EntryType {
    /// The wire tag of this type. The tags are single bits, so a mask over
    /// them composes by bitwise or.
    pub open spec fn spec_tag(self) -> u32 {
        match self {
            EntryType::Unassigned => 0x00,
            EntryType::Boolean => 0x01,
            EntryType::Double => 0x02,
            EntryType::String => 0x04,
            EntryType::Raw => 0x08,
            EntryType::BooleanArray => 0x10,
            EntryType::DoubleArray => 0x20,
            EntryType::StringArray => 0x40,
            EntryType::Rpc => 0x80,
        }
    }

    /// Reads the wire tag of this type.
    pub fn tag(self) -> (r: u32)
        ensures
            r == self.spec_tag(),
    {
        match self {
            EntryType::Unassigned => 0x00,
            EntryType::Boolean => 0x01,
            EntryType::Double => 0x02,
            EntryType::String => 0x04,
            EntryType::Raw => 0x08,
            EntryType::BooleanArray => 0x10,
            EntryType::DoubleArray => 0x20,
            EntryType::StringArray => 0x40,
            EntryType::Rpc => 0x80,
        }
    }

    /// True of the raw tags the service defines.
    pub open spec fn spec_is_valid_tag(raw: u32) -> bool {
        ||| raw == 0x00
        ||| raw == 0x01
        ||| raw == 0x02
        ||| raw == 0x04
        ||| raw == 0x08
        ||| raw == 0x10
        ||| raw == 0x20
        ||| raw == 0x40
        ||| raw == 0x80
    }

    /// Decodes a raw wire tag, totally over the service's defined tag space.
    ///
    /// A tag outside that space is a programming error — the service never
    /// emits one — so it is excluded ahead of the call rather than handled.
    pub fn from_tag(raw: u32) -> (t: EntryType)
        requires
            EntryType::spec_is_valid_tag(raw),
        ensures
            t.spec_tag() == raw,
    {
        if raw == 0x00 {
            EntryType::Unassigned
        } else if raw == 0x01 {
            EntryType::Boolean
        } else if raw == 0x02 {
            EntryType::Double
        } else if raw == 0x04 {
            EntryType::String
        } else if raw == 0x08 {
            EntryType::Raw
        } else if raw == 0x10 {
            EntryType::BooleanArray
        } else if raw == 0x20 {
            EntryType::DoubleArray
        } else if raw == 0x40 {
            EntryType::StringArray
        } else if raw == 0x80 {
            EntryType::Rpc
        } else {
            unreached()
        }
    }
}

/// The entry type a wire payload carries.
pub open spec fn wire_entry_type(d: WireDataView) -> EntryType {
    match d {
        WireDataView::Unassigned => EntryType::Unassigned,
        WireDataView::Boolean(_) => EntryType::Boolean,
        WireDataView::Double(_) => EntryType::Double,
        WireDataView::String(_) => EntryType::String,
        WireDataView::Raw(_) => EntryType::Raw,
        WireDataView::BooleanArray(_) => EntryType::BooleanArray,
        WireDataView::DoubleArray(_) => EntryType::DoubleArray,
        WireDataView::StringArray(_) => EntryType::StringArray,
        WireDataView::Rpc(_) => EntryType::Rpc,
    }
}

/// Reads the entry type of a wire payload.
pub fn entry_type_of_wire(d: &WireData) -> (t: EntryType)
    ensures
        t == wire_entry_type(d@),
{
    match d {
        WireData::Unassigned => EntryType::Unassigned,
        WireData::Boolean(_) => EntryType::Boolean,
        WireData::Double(_) => EntryType::Double,
        WireData::String(_) => EntryType::String,
        WireData::Raw(_) => EntryType::Raw,
        WireData::BooleanArray(_) => EntryType::BooleanArray,
        WireData::DoubleArray(_) => EntryType::DoubleArray,
        WireData::StringArray(_) => EntryType::StringArray,
        WireData::Rpc(_) => EntryType::Rpc,
    }
}

/// A bitmask filter over entry types.
///
/// The all-zero mask means "match any type", not "match none": this is the
/// service's own convention and is load-bearing for enumeration.
#[derive(Copy, Clone, Debug, Eq, PartialEq, Structural, Hash)]
pub struct EntryMask(pub u32);

impl EntryMask {
    /// The mask holding exactly one type's bit.
    pub open spec fn spec_new(ty: EntryType) -> EntryMask {
        EntryMask(ty.spec_tag())
    }

    /// The mask this one yields when a further type is admitted.
    pub open spec fn spec_or(self, ty: EntryType) -> EntryMask {
        EntryMask(self.0 | ty.spec_tag())
    }

    /// True when an entry of the given type passes this filter: either the
    /// mask is the match-any zero mask, or the type's bit is set.
    pub open spec fn spec_accepts(self, ty: EntryType) -> bool {
        self.0 == 0 || self.0 & ty.spec_tag() != 0
    }

    /// Builds the mask that admits exactly the given type.
    pub fn new(ty: EntryType) -> (r: Self)
        ensures
            r == EntryMask::spec_new(ty),
    {
        EntryMask(ty.tag())
    }

    /// The zero mask, which admits every type.
    pub fn all() -> (r: Self)
        ensures
            r == EntryMask(0),
    {
        EntryMask(0)
    }

    /// Admits one more type into the filter.
    pub fn bitor(self, rhs: EntryType) -> (r: EntryMask)
        ensures
            r == self.spec_or(rhs),
    {
        EntryMask(self.0 | rhs.tag())
    }

    /// Tests whether an entry of the given type passes this filter.
    pub fn accepts(self, ty: EntryType) -> (r: bool)
        ensures
            r == self.spec_accepts(ty),
    {
        self.0 == 0 || self.0 & ty.tag() != 0
    }
}

/// A copyable handle to a possibly existent entry.
///
/// A handle identifies a key already resolved against a store; it carries no
/// owned data, so copies of it may be shared freely. Resolving always
/// succeeds, even for keys never written: existence is a property of the
/// entry's current type, not of the handle. Equality and hashing go by the
/// opaque identifier alone.
#[derive(Copy, Clone, Debug, Eq, PartialEq, Structural, Hash)]
pub struct Entry {
    pub handle: usize,
}

impl Entry {
    /// The identifier this handle carries.
    pub open spec fn spec_id(self) -> int {
        self.handle as int
    }

    pub(crate) fn new(handle: usize) -> (e: Entry)
        ensures
            e.spec_id() == handle,
    {
        Entry { handle }
    }

    /// The current type of the entry this handle names; `Unassigned` where
    /// no entry exists.
    pub fn entry_type(&self, inst: &Instance) -> (t: EntryType)
        ensures
            t == inst@.type_of(self.spec_id()),
    {
        inst.type_at(self.handle)
    }

    /// True when an entry currently exists under this handle, that is,
    /// when its type is not `Unassigned`.
    pub fn is_present(&self, inst: &Instance) -> (b: bool)
        requires
            inst@.wf(),
        ensures
            b == (inst@.type_of(self.spec_id()) != EntryType::Unassigned),
            b == inst@.exists_at(self.spec_id()),
    {
        let t = self.entry_type(inst);
        proof {
            let h = self.spec_id();
            if inst@.valid(h) {
                assert(inst@.stored_of(h) == inst@.records[h].stored);
            }
        }
        t != EntryType::Unassigned
    }

    /// The last-change stamp of the entry, a monotonic counter the store
    /// assigns; zero where no entry exists.
    pub fn last_changed(&self, inst: &Instance) -> (t: NetworkTime)
        ensures
            t.spec_raw() == inst@.stamp_of(self.spec_id()),
    {
        NetworkTime(inst.stamp_at(self.handle))
    }

    /// The full path this handle was resolved for, or nothing if the
    /// handle does not belong to this store.
    pub fn name(&self, inst: &Instance) -> (r: Option<String>)
        ensures
            r is Some <==> inst@.valid(self.spec_id()),
            r matches Some(p) ==> p@ == inst@.records[self.spec_id()].path,
    {
        inst.path_at(self.handle)
    }

    /// Writes a value to the entry, converting it to its wire shape with a
    /// zero stamp — the store assigns the authoritative stamp. On a type
    /// mismatch nothing changes and the entry's actual current type comes
    /// back as the error, so the caller can decide whether to coerce or
    /// abort.
    pub fn set(&self, inst: &mut Instance, value: Value) -> (r: Result<(), EntryType>)
        requires
            old(inst)@.wf(),
        ensures
            final(inst)@.wf(),
            r is Ok <==> old(inst)@.can_set(self.spec_id(), wire_data_of(value@)),
            r is Ok ==> final(inst)@ == old(inst)@.after_set(self.spec_id(), wire_data_of(value@)),
            r is Err ==> final(inst)@ == old(inst)@,
            r matches Err(t) ==> t == old(inst)@.type_of(self.spec_id()),
    {
        let w = to_wire(value, 0);
        if inst.write_wire(self.handle, w) {
            Ok(())
        } else {
            Err(inst.type_at(self.handle))
        }
    }

    /// A point-in-time snapshot of the entry's current value, or nothing
    /// where no entry exists. The store's copy is read out as a deep copy
    /// and consumed here exactly once.
    pub fn value(&self, inst: &Instance) -> (r: Option<Value>)
        requires
            inst@.wf(),
        ensures
            r is Some <==> inst@.exists_at(self.spec_id()),
            r matches Some(v) ==> inst@.stored_of(self.spec_id()) matches Some(w) && v@
                == value_of_wire(w.data),
    {
        match inst.read_wire(self.handle) {
            None => None,
            Some(w) => {
                proof {
                    assert(inst@.records[self.spec_id()].stored == Some(w@));
                }
                match from_wire(w) {
                    Ok(v) => Some(v),
                    Err(_) => unreached(),
                }
            },
        }
    }

    /// Reads the current value, applies the transform, and writes the
    /// result back: read-modify-write with no compare-and-swap, so
    /// concurrent writers race and the last write wins. Returns false — and
    /// never invokes the transform — where the entry did not exist at read
    /// time; returns true once a write was attempted, deliberately
    /// discarding whether that write itself was accepted.
    pub fn edit<F: Fn(Value) -> Value>(&self, inst: &mut Instance, func: F) -> (b: bool)
        requires
            old(inst)@.wf(),
            forall|v: Value|
                (old(inst)@.stored_of(self.spec_id()) matches Some(w) && v@ == value_of_wire(
                    w.data,
                )) ==> call_requires(func, (v,)),
        ensures
            final(inst)@.wf(),
            b == old(inst)@.exists_at(self.spec_id()),
            !b ==> final(inst)@ == old(inst)@,
            b ==> exists|vin: Value, vout: Value|
                {
                    &&& (old(inst)@.stored_of(self.spec_id()) matches Some(w) && vin@
                        == value_of_wire(w.data))
                    &&& #[trigger] call_ensures(func, (vin,), vout)
                    &&& if old(inst)@.can_set(self.spec_id(), wire_data_of(vout@)) {
                        final(inst)@ == old(inst)@.after_set(self.spec_id(), wire_data_of(vout@))
                    } else {
                        final(inst)@ == old(inst)@
                    }
                },
    {
        match self.value(inst) {
            None => false,
            Some(v) => {
                let ghost vin = v;
                let newv = func(v);
                let _ = self.set(inst, newv);
                proof {
                    assert(call_ensures(func, (vin,), newv));
                }
                true
            },
        }
    }
}

/// Law: admitting a type into the match-any mask yields exactly the mask of
/// that type, for every type.
pub proof fn lemma_mask_all_or(ty: EntryType)
    ensures
        EntryMask(0).spec_or(ty) == EntryMask::spec_new(ty),
{
    let t = ty.spec_tag();
    assert(0u32 | t == t) by (bit_vector);
}

/// Law: admitting two types into a mask yields the same mask in either
/// order.
pub proof fn lemma_mask_or_commutes(m: EntryMask, a: EntryType, b: EntryType)
    ensures
        m.spec_or(a).spec_or(b) == m.spec_or(b).spec_or(a),
{
    let x = m.0;
    let ta = a.spec_tag();
    let tb = b.spec_tag();
    assert((x | ta) | tb == (x | tb) | ta) by (bit_vector);
}

/// Law: admitting a type a second time changes nothing.
pub proof fn lemma_mask_or_idempotent(m: EntryMask, a: EntryType)
    ensures
        m.spec_or(a).spec_or(a) == m.spec_or(a),
{
    let x = m.0;
    let ta = a.spec_tag();
    assert((x | ta) | ta == x | ta) by (bit_vector);
}

} // verus!
