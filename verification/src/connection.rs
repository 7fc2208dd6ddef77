//! Connection snapshots: an owned array of peer connection descriptors,
//! read through borrowed, bounds-checked views.
//!
//! A snapshot owns its backing array exclusively; dropping the snapshot
//! releases it exactly once, and every descriptor view borrows from the
//! snapshot, so no view can outlive it.
use vstd::prelude::*;

use crate::NetworkTime;

verus! {

/// One peer connection, as plain owned values.
#[derive(Debug)]
pub struct ConnectionData {
    pub remote_id: String,
    pub remote_ip: String,
    pub remote_port: u32,
    pub protocol_version: u32,
    pub last_update: u64,
}

/// An owned snapshot of the peer connections at one point in time.
#[derive(Debug)]
pub struct ConnectionInfo {
    entries: Vec<ConnectionData>,
}

impl View for ConnectionInfo {
    type V = Seq<ConnectionData>;

    closed spec fn view(&self) -> Seq<ConnectionData> {
        self.entries@
    }
}

impl ConnectionInfo {
    /// Takes ownership of the descriptors backing this snapshot.
    pub fn new(entries: Vec<ConnectionData>) -> (c: ConnectionInfo)
        ensures
            c@ == entries@,
    {
        ConnectionInfo { entries }
    }

    /// How many connections the snapshot holds.
    pub fn len(&self) -> (n: usize)
        ensures
            n == self@.len(),
    {
        self.entries.len()
    }

    /// A borrowed view of one descriptor: present exactly for indexes
    /// under the snapshot's length.
    pub fn get(&self, idx: usize) -> (r: Option<ConnectionInfoEntry>)
        ensures
            r is Some <==> idx < self@.len(),
            r matches Some(e) ==> e.spec_data() == self@[idx as int],
    {
        if idx >= self.entries.len() {
            None
        } else {
            Some(ConnectionInfoEntry { data: &self.entries[idx] })
        }
    }
}

/// A borrowed view of one connection descriptor. It lives no longer than
/// the snapshot it points into.
#[derive(Debug)]
pub struct ConnectionInfoEntry<'c> {
    data: &'c ConnectionData,
}

impl<'c> ConnectionInfoEntry<'c> {
    /// The descriptor this view reads.
    pub closed spec fn spec_data(self) -> ConnectionData {
        *self.data
    }

    /// The peer's self-reported identity.
    pub fn remote_id(&self) -> (r: &str)
        ensures
            r@ == self.spec_data().remote_id@,
    {
        self.data.remote_id.as_str()
    }

    /// The peer's address, as the service reported it.
    pub fn remote_ip_str(&self) -> (r: &str)
        ensures
            r@ == self.spec_data().remote_ip@,
    {
        self.data.remote_ip.as_str()
    }

    /// The peer's port.
    pub fn remote_port(&self) -> (r: u32)
        ensures
            r == self.spec_data().remote_port,
    {
        self.data.remote_port
    }

    /// The protocol version the peer speaks.
    pub fn protocol_version(&self) -> (r: u32)
        ensures
            r == self.spec_data().protocol_version,
    {
        self.data.protocol_version
    }

    /// When the connection last made progress.
    pub fn last_update(&self) -> (t: NetworkTime)
        ensures
            t.spec_raw() == self.spec_data().last_update,
    {
        NetworkTime(self.data.last_update)
    }
}

impl<'c> PartialEq for ConnectionInfoEntry<'c> {
    /// Two descriptor views are equal when every reported attribute is.
    fn eq(&self, other: &ConnectionInfoEntry<'c>) -> (r: bool) {
        self.data.last_update == other.data.last_update && self.data.protocol_version
            == other.data.protocol_version && self.data.remote_id == other.data.remote_id
            && self.data.remote_ip == other.data.remote_ip && self.data.remote_port
            == other.data.remote_port
    }
}

impl<'c> vstd::std_specs::cmp::PartialEqSpecImpl for ConnectionInfoEntry<'c> {
    open spec fn obeys_eq_spec() -> bool {
        true
    }

    open spec fn eq_spec(&self, other: &ConnectionInfoEntry<'c>) -> bool {
        &&& self.spec_data().last_update == other.spec_data().last_update
        &&& self.spec_data().protocol_version == other.spec_data().protocol_version
        &&& self.spec_data().remote_id@ == other.spec_data().remote_id@
        &&& self.spec_data().remote_ip@ == other.spec_data().remote_ip@
        &&& self.spec_data().remote_port == other.spec_data().remote_port
    }
}

} // verus!
