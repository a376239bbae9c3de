//! Ethernet layer: frame header parsing and building, EtherType
//! demultiplexing, MAC address formatting.

use vstd::prelude::*;

use crate::skb::SkBuff;

verus! {

/// Ethernet address length.
pub const ETH_ALEN: usize = 6;

/// Ethernet header length.
pub const ETH_HLEN: usize = 14;

/// Maximum Ethernet payload (standard MTU).
pub const ETH_DATA_LEN: usize = 1500;

/// Maximum Ethernet frame size (without FCS).
pub const ETH_FRAME_LEN: usize = 1514;

/// EtherType values.
#[derive(Clone, Copy, PartialEq, Eq, Structural, Debug)]
pub enum EtherType {
    /// IPv4 (0x0800)
    Ipv4,
    /// ARP (0x0806)
    Arp,
    /// IPv6 (0x86DD)
    Ipv6,
    /// VLAN tagged (0x8100)
    Vlan,
    /// Unknown protocol
    Unknown(u16),
}

/// The EtherType that a 16-bit on-wire value decodes to.
pub open spec fn spec_ether_type_from(value: u16) -> EtherType {
    if value == 0x0800 {
        EtherType::Ipv4
    } else if value == 0x0806 {
        EtherType::Arp
    } else if value == 0x86DD {
        EtherType::Ipv6
    } else if value == 0x8100 {
        EtherType::Vlan
    } else {
        EtherType::Unknown(value)
    }
}

/// The 16-bit on-wire value an EtherType encodes to.
pub open spec fn spec_ether_type_to(t: EtherType) -> u16 {
    match t {
        EtherType::Ipv4 => 0x0800,
        EtherType::Arp => 0x0806,
        EtherType::Ipv6 => 0x86DD,
        EtherType::Vlan => 0x8100,
        EtherType::Unknown(v) => v,
    }
}

impl EtherType {
    /// Decode from the network-byte-order 16-bit value.
    pub fn from_be(value: u16) -> (r: Self)
        ensures
            r == spec_ether_type_from(value),
    {
        if value == 0x0800 {
            EtherType::Ipv4
        } else if value == 0x0806 {
            EtherType::Arp
        } else if value == 0x86DD {
            EtherType::Ipv6
        } else if value == 0x8100 {
            EtherType::Vlan
        } else {
            EtherType::Unknown(value)
        }
    }

    /// Encode to the network-byte-order 16-bit value.
    pub fn to_be(self) -> (r: u16)
        ensures
            r == spec_ether_type_to(self),
    {
        match self {
            EtherType::Ipv4 => 0x0800,
            EtherType::Arp => 0x0806,
            EtherType::Ipv6 => 0x86DD,
            EtherType::Vlan => 0x8100,
            EtherType::Unknown(v) => v,
        }
    }
}

impl Default for EtherType {
    /// The default tag carried by a freshly allocated buffer.
    fn default() -> (r: Self)
        ensures
            r == EtherType::Unknown(0u16),
    {
        EtherType::Unknown(0)
    }
}

/// Decoding a 16-bit value and re-encoding it yields the value back,
/// for every `u16`.
pub proof fn lemma_ether_type_roundtrip(x: u16)
    ensures
        spec_ether_type_to(spec_ether_type_from(x)) == x,
{
}

/// The 16-bit value read big-endian from two bytes.
pub open spec fn spec_be16(hi: u8, lo: u8) -> u16 {
    (((hi as u16) << 8) | (lo as u16)) as u16
}

/// Ethernet header: destination, source, protocol in network byte order.
#[derive(Clone, Copy, Debug)]
pub struct EthHdr {
    /// Destination MAC address
    pub h_dest: [u8; 6],
    /// Source MAC address
    pub h_source: [u8; 6],
    /// Protocol type (big-endian)
    pub h_proto: [u8; 2],
}

impl EthHdr {
    /// The EtherType carried in the header.
    pub fn protocol(&self) -> (r: EtherType)
        ensures
            r == spec_ether_type_from(spec_be16(self.h_proto[0], self.h_proto[1])),
    {
        let proto: u16 = ((self.h_proto[0] as u16) << 8) | (self.h_proto[1] as u16);
        EtherType::from_be(proto)
    }

    /// Store an EtherType in network byte order.
    pub fn set_protocol(&mut self, proto: EtherType)
        ensures
            final(self).h_dest == old(self).h_dest,
            final(self).h_source == old(self).h_source,
            final(self).h_proto[0] == (spec_ether_type_to(proto) >> 8) as u8,
            final(self).h_proto[1] == (spec_ether_type_to(proto) & 0xff) as u8,
    {
        let v: u16 = proto.to_be();
        self.h_proto = [(v >> 8) as u8, (v & 0xff) as u8];
    }

    /// True when the destination is the broadcast address
    /// ff:ff:ff:ff:ff:ff.
    pub fn is_broadcast(&self) -> (r: bool)
        ensures
            r == (forall|i: int| 0 <= i < 6 ==> self.h_dest[i] == 0xffu8),
    {
        let r = self.h_dest[0] == 0xff && self.h_dest[1] == 0xff && self.h_dest[2] == 0xff
            && self.h_dest[3] == 0xff && self.h_dest[4] == 0xff && self.h_dest[5] == 0xff;
        proof {
            if r {
                assert forall|i: int| 0 <= i < 6 implies self.h_dest[i] == 0xffu8 by {
                    assert(self.h_dest[0] == 0xffu8 && self.h_dest[1] == 0xffu8
                        && self.h_dest[2] == 0xffu8 && self.h_dest[3] == 0xffu8
                        && self.h_dest[4] == 0xffu8 && self.h_dest[5] == 0xffu8);
                }
            }
        }
        r
    }

    /// True when the destination is multicast: bit 0 of the first byte set.
    pub fn is_multicast(&self) -> (r: bool)
        ensures
            r == ((self.h_dest[0] & 1) != 0),
    {
        self.h_dest[0] & 0x01 != 0
    }
}

/// What `eth_type_trans` returns for a given payload: the EtherType read
/// big-endian from bytes 12 and 13, or Unknown(0) for a short frame.
pub open spec fn spec_eth_type_trans(payload: Seq<u8>) -> EtherType {
    if payload.len() < 14 {
        EtherType::Unknown(0u16)
    } else {
        spec_ether_type_from(spec_be16(payload[12], payload[13]))
    }
}

/// Determine the EtherType of a received frame for dispatch. Returns
/// Unknown(0) when the payload holds fewer than 14 bytes; does not move
/// the `data` cursor (callers strip the header with `pull(14)`).
pub fn eth_type_trans(skb: &SkBuff) -> (r: EtherType)
    requires
        skb.wf(),
    ensures
        r == spec_eth_type_trans(skb.payload()),
{
    if skb.len() < ETH_HLEN {
        return EtherType::Unknown(0);
    }
    let hi: u8 = skb.buf[skb.data + 12];
    let lo: u8 = skb.buf[skb.data + 13];
    let proto: u16 = ((hi as u16) << 8) | (lo as u16);
    EtherType::from_be(proto)
}

/// The 14 bytes of an Ethernet header: destination, source, EtherType
/// big-endian.
pub open spec fn spec_eth_header_bytes(dest: Seq<u8>, source: Seq<u8>, proto: u16) -> Seq<u8> {
    dest + source + seq![(proto >> 8) as u8, (proto & 0xff) as u8]
}

/// Prepend an Ethernet header to the buffer. Fails exactly when fewer than
/// 14 bytes of headroom remain; the caller is responsible for having
/// reserved it.
pub fn eth_header(skb: &mut SkBuff, dest: &[u8; 6], source: &[u8; 6], proto: EtherType) -> (r:
    Option<()>)
    requires
        old(skb).wf(),
    ensures
        final(skb).wf(),
        r is Some <==> old(skb).spec_headroom() >= 14,
        r is Some ==> {
            &&& final(skb).payload() == spec_eth_header_bytes(
                dest@,
                source@,
                spec_ether_type_to(proto),
            ) + old(skb).payload()
            &&& final(skb).spec_data() == old(skb).spec_data() - 14
            &&& final(skb).spec_tail() == old(skb).spec_tail()
            &&& final(skb).spec_end() == old(skb).spec_end()
        },
        r is None ==> *final(skb) == *old(skb),
{
    match skb.push(ETH_HLEN) {
        None => None,
        Some(_) => {
            let v: u16 = proto.to_be();
            let hdr: [u8; 14] = [
                dest[0],
                dest[1],
                dest[2],
                dest[3],
                dest[4],
                dest[5],
                source[0],
                source[1],
                source[2],
                source[3],
                source[4],
                source[5],
                (v >> 8) as u8,
                (v & 0xff) as u8,
            ];
            let w = skb.write_payload(0, hdr.as_slice());
            proof {
                assert(w is Some);
                assert(hdr@ =~= spec_eth_header_bytes(dest@, source@, spec_ether_type_to(proto)));
                assert(skb.payload() =~= hdr@ + old(skb).payload());
            }
            Some(())
        },
    }
}

/// The ASCII hex digit for a nibble.
pub open spec fn spec_hex_digit(n: u8) -> u8
    recommends
        n < 16,
{
    if n < 10 {
        (48 + n) as u8
    } else {
        (87 + n) as u8
    }
}

/// The ASCII hex digit for a nibble (0-15).
fn hex_digit(n: u8) -> (r: u8)
    requires
        n < 16,
    ensures
        r == spec_hex_digit(n),
{
    if n < 10 {
        48 + n
    } else {
        87 + n
    }
}

/// Format a MAC address as the 17 ASCII bytes `xx:xx:xx:xx:xx:xx`.
pub fn format_mac(mac: &[u8; 6]) -> (r: [u8; 17])
    ensures
        forall|i: int|
            0 <= i < 6 ==> #[trigger] r[3 * i] == spec_hex_digit((mac[i] >> 4) as u8) && r[3 * i
                + 1] == spec_hex_digit((mac[i] & 0x0f) as u8),
        forall|i: int| 0 <= i < 5 ==> #[trigger] r[3 * i + 2] == 58u8,
{
    proof {
        assert(forall|b: u8| (b >> 4) < 16 && (b & 0x0f) < 16) by (bit_vector);
    }
    let r: [u8; 17] = [
        hex_digit(mac[0] >> 4),
        hex_digit(mac[0] & 0x0f),
        58,
        hex_digit(mac[1] >> 4),
        hex_digit(mac[1] & 0x0f),
        58,
        hex_digit(mac[2] >> 4),
        hex_digit(mac[2] & 0x0f),
        58,
        hex_digit(mac[3] >> 4),
        hex_digit(mac[3] & 0x0f),
        58,
        hex_digit(mac[4] >> 4),
        hex_digit(mac[4] & 0x0f),
        58,
        hex_digit(mac[5] >> 4),
        hex_digit(mac[5] & 0x0f),
    ];
    r
}

} // verus!
