//! Plain-value models of the transport-level addresses the loop threads
//! through: the listening endpoint and the origin of each received datagram.
//!
//! The servicing loop never inspects an address; it only hands the origin of a
//! request back to the transport so the reply reaches the sender.

use vstd::prelude::*;

verus! {

/// The raw bytes of an IP address, version 4 or 6.
#[derive(Clone, Copy, Debug, PartialEq, Eq)]
pub enum IpBytes {
    V4([u8; 4]),
    V6([u8; 16]),
}

/// A transport-level address: an IP address and a port.
#[derive(Clone, Copy, Debug, PartialEq, Eq)]
pub struct NetAddr {
    pub ip: IpBytes,
    pub port: u16,
}

} // verus!
