//! The address of a connection's far end, by which connections are told
//! apart.

use crate::vec_map::MapKey;
use vstd::prelude::*;

verus! {

/// A socket address as plain numbers: the host in network order as one
/// number, the port, and what else an IPv6 address carries.
#[derive(Debug, Clone, Copy, PartialEq, Eq, Hash, Structural)]
pub enum PeerAddr {
    V4 { ipv4: u32, port: u16 },
    V6 { ipv6: u128, port: u16, flowinfo: u32, scope_id: u32 },
}

impl View for PeerAddr {
    type V = PeerAddr;

    open spec fn view(&self) -> PeerAddr {
        *self
    }
}

impl MapKey for PeerAddr {
    fn same_key(&self, other: &PeerAddr) -> (same: bool) {
        *self == *other
    }
}

} // verus!
