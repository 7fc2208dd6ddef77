//! Client-side core of a hierarchical, typed key-value synchronization
//! service ("network tables"): a safe variant-typed value model with a
//! bidirectional conversion to the service's tagged-union wire shape, an
//! entry-handle store, and a prefix-scoped table cache over it.
use vstd::prelude::*;

mod cache;
pub mod connection;
pub mod entry;
pub mod instance;
pub mod table;
pub mod value;

pub use instance::Instance;
pub use table::NetworkTable;

verus! {

/// A monotonic service timestamp: a change counter, not wall-clock time.
#[derive(Copy, Clone, Debug, PartialEq, Eq, Structural, PartialOrd, Ord, Hash)]
pub struct NetworkTime(pub(crate) u64);

impl NetworkTime {
    /// The raw counter value carried by this timestamp.
    pub closed spec fn spec_raw(&self) -> u64 {
        self.0
    }

    /// Reads the raw counter value.
    pub fn raw(&self) -> (r: u64)
        ensures
            r == self.spec_raw(),
    {
        self.0
    }
}

/// Marker trait reserved for extension points of this crate.
pub trait Sealed {}

/// The store's current monotonic time, as a timestamp.
pub fn now(inst: &Instance) -> (t: NetworkTime)
    ensures
        t.spec_raw() == inst@.time,
{
    inst.now()
}

} // verus!
