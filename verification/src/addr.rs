//! Link-layer and network-layer addresses.

use vstd::prelude::*;

verus! {

/// An Ethernet hardware address.
#[derive(Clone, Copy, Debug, PartialEq, Eq, Hash)]
pub struct MacAddress {
    pub bytes: [u8; 6],
}

impl MacAddress {
    pub fn new(bytes: [u8; 6]) -> (addr: MacAddress)
        ensures
            addr.bytes == bytes,
    {
        MacAddress { bytes }
    }

    pub fn to_array(&self) -> (bytes: [u8; 6])
        ensures
            bytes == self.bytes,
    {
        self.bytes
    }
}

/// An IPv4 address, held as the 32-bit number that its four octets spell
/// in network order.
#[derive(Clone, Copy, Debug, PartialEq, Eq, PartialOrd, Ord, Hash, Structural)]
pub struct Ipv4Addr {
    pub bits: u32,
}

/// The number that the octets `a.b.c.d` spell.
pub open spec fn ipv4_bits(a: u8, b: u8, c: u8, d: u8) -> int {
    a * 0x100_0000 + b * 0x1_0000 + c * 0x100 + d
}

/// The address whose four octets, first to last, are `octets`.
pub open spec fn ipv4_from_octets(octets: [u8; 4]) -> Ipv4Addr {
    Ipv4Addr { bits: ipv4_bits(octets[0], octets[1], octets[2], octets[3]) as u32 }
}

impl Ipv4Addr {
    /// The address `a.b.c.d`.
    pub fn new(a: u8, b: u8, c: u8, d: u8) -> (addr: Ipv4Addr)
        ensures
            addr.bits == ipv4_bits(a, b, c, d),
    {
        let a32: u32 = a as u32;
        let b32: u32 = b as u32;
        let c32: u32 = c as u32;
        let d32: u32 = d as u32;
        Ipv4Addr { bits: a32 * 0x100_0000 + b32 * 0x1_0000 + c32 * 0x100 + d32 }
    }

    /// The address whose four octets, first to last, are `octets`.
    pub fn from_octets(octets: [u8; 4]) -> (addr: Ipv4Addr)
        ensures
            addr == ipv4_from_octets(octets),
    {
        Ipv4Addr::new(octets[0], octets[1], octets[2], octets[3])
    }

    pub fn from_bits(bits: u32) -> (addr: Ipv4Addr)
        ensures
            addr.bits == bits,
    {
        Ipv4Addr { bits }
    }

    pub fn to_bits(&self) -> (bits: u32)
        ensures
            bits == self.bits,
    {
        self.bits
    }
}

} // verus!
