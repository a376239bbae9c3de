//! IPv4 addresses as 32-bit values, with big-endian (network order)
//! serialization and the netmask operations the routing table needs.

use vstd::prelude::*;

verus! {

/// An IPv4 address held as a host-order 32-bit value.
#[derive(Clone, Copy, PartialEq, Eq, Structural, Debug)]
pub struct Ipv4Addr {
    pub bits: u32,
}

/// The 32-bit value built from four octets, most significant first.
pub open spec fn spec_addr_bits(a: u8, b: u8, c: u8, d: u8) -> u32 {
    ((a as u32) << 24) | ((b as u32) << 16) | ((c as u32) << 8) | (d as u32)
}

impl Ipv4Addr {
    /// Build an address from its four dotted-quad octets.
    pub fn new(a: u8, b: u8, c: u8, d: u8) -> (r: Self)
        ensures
            r.bits == spec_addr_bits(a, b, c, d),
    {
        Ipv4Addr { bits: ((a as u32) << 24) | ((b as u32) << 16) | ((c as u32) << 8) | (d as u32) }
    }

    /// Build an address directly from a 32-bit value.
    pub fn from_u32(bits: u32) -> (r: Self)
        ensures
            r.bits == bits,
    {
        Ipv4Addr { bits }
    }

    /// The 32-bit value of the address.
    pub fn to_u32(&self) -> (r: u32)
        ensures
            r == self.bits,
    {
        self.bits
    }

    /// True exactly for 0.0.0.0.
    pub fn is_unspecified(&self) -> (r: bool)
        ensures
            r == (self.bits == 0),
    {
        self.bits == 0
    }

    /// Bitwise AND with a netmask.
    pub fn mask(&self, m: Ipv4Addr) -> (r: Ipv4Addr)
        ensures
            r.bits == (self.bits & m.bits),
    {
        Ipv4Addr { bits: self.bits & m.bits }
    }

    /// Serialize to network byte order: most significant octet first.
    pub fn octets(&self) -> (r: [u8; 4])
        ensures
            r[0] == (self.bits >> 24) as u8,
            r[1] == ((self.bits >> 16) & 0xff) as u8,
            r[2] == ((self.bits >> 8) & 0xff) as u8,
            r[3] == (self.bits & 0xff) as u8,
    {
        [
            (self.bits >> 24) as u8,
            ((self.bits >> 16) & 0xff) as u8,
            ((self.bits >> 8) & 0xff) as u8,
            (self.bits & 0xff) as u8,
        ]
    }

    /// Parse from network byte order: most significant octet first.
    pub fn from_octets(o: &[u8; 4]) -> (r: Ipv4Addr)
        ensures
            r.bits == spec_addr_bits(o[0], o[1], o[2], o[3]),
    {
        Ipv4Addr::new(o[0], o[1], o[2], o[3])
    }
}

/// An address serialized big-endian and parsed back yields the same four
/// octets, and parsing four octets then serializing yields them unchanged.
pub proof fn lemma_ipv4_octets_roundtrip(addr: Ipv4Addr, a: u8, b: u8, c: u8, d: u8)
    ensures
        spec_addr_bits(
            (addr.bits >> 24) as u8,
            ((addr.bits >> 16) & 0xff) as u8,
            ((addr.bits >> 8) & 0xff) as u8,
            (addr.bits & 0xff) as u8,
        ) == addr.bits,
        (spec_addr_bits(a, b, c, d) >> 24) as u8 == a,
        ((spec_addr_bits(a, b, c, d) >> 16) & 0xff) as u8 == b,
        ((spec_addr_bits(a, b, c, d) >> 8) & 0xff) as u8 == c,
        (spec_addr_bits(a, b, c, d) & 0xff) as u8 == d,
{
    let x = addr.bits;
    assert(((x >> 24) as u32) < 256 && (((x >> 16) & 0xff) as u32) < 256
        && (((x >> 8) & 0xff) as u32) < 256 && ((x & 0xff) as u32) < 256
        && ((((x >> 24) as u8) as u32) << 24 | ((((x >> 16) & 0xff) as u8) as u32) << 16
            | ((((x >> 8) & 0xff) as u8) as u32) << 8 | (((x & 0xff) as u8) as u32)) == x)
        by (bit_vector);
    let y = spec_addr_bits(a, b, c, d);
    assert((((a as u32) << 24 | (b as u32) << 16 | (c as u32) << 8 | (d as u32)) >> 24) as u8 == a
        && ((((a as u32) << 24 | (b as u32) << 16 | (c as u32) << 8 | (d as u32)) >> 16) & 0xff) as u8 == b
        && ((((a as u32) << 24 | (b as u32) << 16 | (c as u32) << 8 | (d as u32)) >> 8) & 0xff) as u8 == c
        && (((a as u32) << 24 | (b as u32) << 16 | (c as u32) << 8 | (d as u32)) & 0xff) as u8 == d)
        by (bit_vector);
}

} // verus!
