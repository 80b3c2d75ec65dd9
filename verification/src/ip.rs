//! IPv4 addresses as plain values.

use vstd::prelude::*;

verus! {

/// An IPv4 address, one octet per field.
#[derive(Clone, Copy, PartialEq, Eq, Structural, Debug)]
pub struct Ipv4 {
    pub a: u8,
    pub b: u8,
    pub c: u8,
    pub d: u8,
}

/// The client-observed IPv4 address attached to an update request.
pub struct IP {
    addr: Ipv4,
}

impl View for IP {
    type V = Ipv4;

    closed spec fn view(&self) -> Ipv4 {
        self.addr
    }
}

impl IP {
    /// Wraps a client-observed address.
    pub fn new(addr: Ipv4) -> (r: IP)
        ensures
            r@ == addr,
    {
        IP { addr }
    }

    /// The address itself.
    pub fn get(&self) -> (r: Ipv4)
        ensures
            r == self@,
    {
        self.addr
    }
}

} // verus!
