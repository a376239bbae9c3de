//! TCP: connection states, segment header, sequence-number arithmetic,
//! checksum, and the per-connection control block.
//!
//! Sequence-number comparisons are modular: `a < b` exactly when the
//! 32-bit wrapping difference `a - b`, read as a signed value, is
//! negative.

use vstd::prelude::*;

use crate::ethernet::spec_be16;
use crate::ipv4::Ipv4Addr;

verus! {

/// Minimum TCP header length (no options).
pub const TCP_HLEN_MIN: usize = 20;

/// FIN flag: no more data from sender.
pub const TCP_FIN: u8 = 0x01;

/// SYN flag: synchronize sequence numbers.
pub const TCP_SYN: u8 = 0x02;

/// RST flag: reset the connection.
pub const TCP_RST: u8 = 0x04;

/// PSH flag: push buffered data.
pub const TCP_PSH: u8 = 0x08;

/// ACK flag: acknowledgment field significant.
pub const TCP_ACK: u8 = 0x10;

/// URG flag: urgent pointer significant.
pub const TCP_URG: u8 = 0x20;

/// TCP connection state.
#[derive(Clone, Copy, PartialEq, Eq, Structural, Debug)]
pub enum TcpState {
    /// No connection
    Closed,
    /// Waiting for a connection request
    Listen,
    /// SYN sent, waiting for SYN+ACK
    SynSent,
    /// SYN received, waiting for ACK
    SynReceived,
    /// Connection open
    Established,
    /// Our FIN sent, waiting for its ACK or a FIN
    FinWait1,
    /// Our FIN acknowledged, waiting for the peer's FIN
    FinWait2,
    /// Peer's FIN received, waiting for local close
    CloseWait,
    /// Both FINs in flight, waiting for our FIN's ACK
    Closing,
    /// Local close after CloseWait, waiting for our FIN's ACK
    LastAck,
    /// Both sides closed, draining stray segments
    TimeWait,
}

/// The four-tuple identifying a TCP connection.
#[derive(Clone, Copy, PartialEq, Eq, Structural, Debug)]
pub struct TcpFourTuple {
    /// Local IPv4 address
    pub local_addr: Ipv4Addr,
    /// Local port
    pub local_port: u16,
    /// Remote IPv4 address
    pub remote_addr: Ipv4Addr,
    /// Remote port
    pub remote_port: u16,
}

/// Whether a flag bit is set in a TCP flag byte.
pub open spec fn spec_has_flag(flags: u8, f: u8) -> bool {
    flags & f != 0
}

/// The 32-bit wrapping difference `a - b`.
pub open spec fn spec_wrap_sub(a: u32, b: u32) -> u32 {
    if a >= b {
        (a - b) as u32
    } else {
        (a + 0x100000000 - b) as u32
    }
}

/// The 32-bit wrapping sum `a + b`.
pub open spec fn spec_wrap_add(a: u32, b: u32) -> u32 {
    if a + b > u32::MAX {
        (a + b - 0x100000000) as u32
    } else {
        (a + b) as u32
    }
}

/// Modular sequence-number comparison: `a` is before `b` when the
/// wrapping difference, read as signed, is negative.
pub open spec fn spec_seq_lt(a: u32, b: u32) -> bool {
    spec_wrap_sub(a, b) >= 0x80000000
}

/// Modular sequence-number comparison, allowing equality.
pub open spec fn spec_seq_le(a: u32, b: u32) -> bool {
    a == b || spec_seq_lt(a, b)
}

/// The 32-bit wrapping difference `a - b`.
pub fn wrap_sub(a: u32, b: u32) -> (r: u32)
    ensures
        r == spec_wrap_sub(a, b),
{
    if a >= b {
        a - b
    } else {
        (u32::MAX - b) + a + 1
    }
}

/// The 32-bit wrapping sum `a + b`.
pub fn wrap_add(a: u32, b: u32) -> (r: u32)
    ensures
        r == spec_wrap_add(a, b),
{
    if b <= u32::MAX - a {
        a + b
    } else {
        b - (u32::MAX - a) - 1
    }
}

/// Modular sequence-number comparison: `a < b` in sequence space.
pub fn seq_lt(a: u32, b: u32) -> (r: bool)
    ensures
        r == spec_seq_lt(a, b),
{
    wrap_sub(a, b) >= 0x80000000
}

/// Modular sequence-number comparison: `a <= b` in sequence space.
pub fn seq_le(a: u32, b: u32) -> (r: bool)
    ensures
        r == spec_seq_le(a, b),
{
    a == b || seq_lt(a, b)
}

/// The 32-bit value read big-endian from four bytes.
pub open spec fn spec_be32(b0: u8, b1: u8, b2: u8, b3: u8) -> u32 {
    (((b0 as u32) << 24) | ((b1 as u32) << 16) | ((b2 as u32) << 8) | (b3 as u32)) as u32
}

/// A parsed TCP segment header.
#[derive(Clone, Copy, PartialEq, Eq, Structural, Debug)]
pub struct TcpHdr {
    /// Source port
    pub source_port: u16,
    /// Destination port
    pub dest_port: u16,
    /// Sequence number
    pub seq: u32,
    /// Acknowledgment number
    pub ack_seq: u32,
    /// Header length in bytes (the wire field is in 4-byte units)
    pub data_offset: usize,
    /// Flag byte
    pub flags: u8,
    /// Advertised receive window
    pub window: u16,
}

impl TcpHdr {
    /// Whether a flag bit is set.
    pub fn has_flag(&self, f: u8) -> (r: bool)
        ensures
            r == spec_has_flag(self.flags, f),
    {
        self.flags & f != 0
    }
}

/// The header a 20-byte-or-longer segment parses to.
pub open spec fn spec_parse_hdr(b: Seq<u8>) -> TcpHdr
    recommends
        b.len() >= 20,
{
    TcpHdr {
        source_port: spec_be16(b[0], b[1]),
        dest_port: spec_be16(b[2], b[3]),
        seq: spec_be32(b[4], b[5], b[6], b[7]),
        ack_seq: spec_be32(b[8], b[9], b[10], b[11]),
        data_offset: (((b[12] >> 4) as usize) * 4) as usize,
        flags: b[13],
        window: spec_be16(b[14], b[15]),
    }
}

/// Parse a TCP header from the front of a segment. Fails exactly when
/// fewer than 20 bytes are present.
pub fn tcp_hdr_parse(b: &[u8]) -> (r: Option<TcpHdr>)
    ensures
        r is Some <==> b@.len() >= TCP_HLEN_MIN,
        r is Some ==> r->Some_0 == spec_parse_hdr(b@),
{
    if b.len() < TCP_HLEN_MIN {
        return None;
    }
    let source_port: u16 = ((b[0] as u16) << 8) | (b[1] as u16);
    let dest_port: u16 = ((b[2] as u16) << 8) | (b[3] as u16);
    let seq: u32 = ((b[4] as u32) << 24) | ((b[5] as u32) << 16) | ((b[6] as u32) << 8) | (
    b[7] as u32);
    let ack_seq: u32 = ((b[8] as u32) << 24) | ((b[9] as u32) << 16) | ((b[10] as u32) << 8) | (
    b[11] as u32);
    let data_offset: usize = ((b[12] >> 4) as usize) * 4;
    let flags: u8 = b[13];
    let window: u16 = ((b[14] as u16) << 8) | (b[15] as u16);
    Some(TcpHdr { source_port, dest_port, seq, ack_seq, data_offset, flags, window })
}

/// The sum of the 16-bit big-endian words of `s`, a trailing odd byte
/// padded with zero.
pub open spec fn spec_sum16(s: Seq<u8>) -> int
    decreases s.len(),
{
    if s.len() == 0 {
        0
    } else if s.len() == 1 {
        (s[0] as int) * 256
    } else {
        spec_be16(s[0], s[1]) + spec_sum16(s.skip(2))
    }
}

/// End-around-carry fold of a one's-complement accumulator into 16 bits.
pub open spec fn spec_csum_fold(x: int) -> int
    decreases x,
{
    if x < 0 {
        0
    } else if x <= 0xffff {
        x
    } else {
        spec_csum_fold(x % 0x10000 + x / 0x10000)
    }
}

/// The TCP checksum field value for a segment: the one's complement of
/// the end-around-carry sum over the pseudo-header (source, destination,
/// zero, protocol 6, segment length) and the segment bytes. A received
/// segment whose stored checksum is included in the sum yields 0 exactly
/// when it is intact.
pub open spec fn spec_tcp_checksum(src: Ipv4Addr, dst: Ipv4Addr, seg: Seq<u8>) -> u16 {
    let pseudo = (src.bits >> 16) + (src.bits & 0xffff) + (dst.bits >> 16) + (dst.bits & 0xffff)
        + 6 + seg.len();
    (0xffff - spec_csum_fold(pseudo + spec_sum16(seg))) as u16
}

/// The fold of a non-negative accumulator is a 16-bit value.
pub proof fn lemma_csum_fold_range(x: int)
    ensures
        0 <= spec_csum_fold(x) <= 0xffff,
    decreases x,
{
    if x >= 0 && x > 0xffff {
        lemma_csum_fold_range(x % 0x10000 + x / 0x10000);
    }
}

/// Compute the TCP checksum over the pseudo-header and segment.
#[verifier::loop_isolation(false)]
pub fn tcp_checksum(saddr: Ipv4Addr, daddr: Ipv4Addr, seg: &[u8]) -> (r: u16)
    requires
        seg@.len() <= 0xffff,
    ensures
        r == spec_tcp_checksum(saddr, daddr, seg@),
{
    let n: usize = seg.len();
    let src = saddr.to_u32();
    let dst = daddr.to_u32();
    let mut sum: u64 = (src >> 16) as u64 + (src & 0xffff) as u64 + (dst >> 16) as u64 + (dst
        & 0xffff) as u64 + 6 + n as u64;
    proof {
        assert((src >> 16) <= 0xffff && (src & 0xffff) <= 0xffff && (dst >> 16) <= 0xffff && (dst
            & 0xffff) <= 0xffff) by (bit_vector);
        assert(seg@.skip(0) =~= seg@);
    }
    let ghost base: int = sum as int;
    proof {
        lemma_sum16_nonneg(seg@);
    }
    let mut i: usize = 0;
    while i + 1 < n
        invariant
            i <= n,
            i % 2 == 0,
            sum as int == base + spec_sum16(seg@) - spec_sum16(seg@.skip(i as int)),
            sum as int <= base + 0xffff * (i as int / 2),
            spec_sum16(seg@.skip(i as int)) >= 0,
        decreases n - i,
    {
        let b0: u8 = seg[i];
        let b1: u8 = seg[i + 1];
        let w: u64 = ((b0 as u64) << 8) | (b1 as u64);
        proof {
            let s = seg@.skip(i as int);
            assert(s[0] == seg@[i as int] && s[1] == seg@[i as int + 1]);
            assert(s.skip(2) =~= seg@.skip(i as int + 2));
            assert(w == ((((b0 as u16) << 8) | (b1 as u16)) as u64) && w <= 0xffff)
                by (bit_vector)
                requires
                    w == ((b0 as u64) << 8) | (b1 as u64),
            ;
            assert(w == spec_be16(b0, b1));
            lemma_sum16_nonneg(seg@.skip(i as int + 2));
        }
        sum = sum + w;
        i = i + 2;
    }
    if i < n {
        let b0: u8 = seg[i];
        let w: u64 = (b0 as u64) << 8;
        proof {
            let s = seg@.skip(i as int);
            assert(s.len() == 1);
            assert(s[0] == seg@[i as int]);
            assert(w == (b0 as int) * 256 && w <= 0xff00) by (bit_vector)
                requires
                    w == (b0 as u64) << 8,
            ;
        }
        sum = sum + w;
    } else {
        proof {
            assert(seg@.skip(i as int).len() == 0);
        }
    }
    proof {
        assert(sum as int == base + spec_sum16(seg@));
    }
    let mut acc: u64 = sum;
    while acc > 0xffff
        invariant
            spec_csum_fold(acc as int) == spec_csum_fold(sum as int),
        decreases acc,
    {
        proof {
            assert((acc & 0xffff) == acc % 0x10000 && (acc >> 16) == acc / 0x10000)
                by (bit_vector);
        }
        acc = (acc & 0xffff) + (acc >> 16);
    }
    proof {
        lemma_csum_fold_range(sum as int);
        assert(acc as int == spec_csum_fold(sum as int));
    }
    let folded: u16 = (acc & 0xffff) as u16;
    proof {
        assert(folded == acc) by (bit_vector)
            requires
                acc <= 0xffff,
                folded == (acc & 0xffff) as u16,
        ;
    }
    0xffffu16 - folded
}

/// The word sum of a byte sequence is non-negative.
pub proof fn lemma_sum16_nonneg(s: Seq<u8>)
    ensures
        spec_sum16(s) >= 0,
    decreases s.len(),
{
    if s.len() >= 2 {
        lemma_sum16_nonneg(s.skip(2));
    }
}

/// One retransmit-queue entry: a segment awaiting acknowledgment.
#[derive(Clone, Debug)]
pub struct RtxEntry {
    /// First sequence number of the segment.
    pub seq: u32,
    /// Segment payload.
    pub data: Vec<u8>,
}

/// The mathematical value of a retransmit queue: each entry's first
/// sequence number and payload bytes, in order.
pub open spec fn spec_rtx_model(q: Seq<RtxEntry>) -> Seq<(u32, Seq<u8>)> {
    q.map(|i: int, e: RtxEntry| (e.seq, e.data@))
}

/// The retransmit queue after an acknowledgment: entries whose right edge
/// `seq + len` is at or before `ack` (in modular sequence space) leave;
/// the rest stay, in order.
pub open spec fn spec_rtx_after_ack(q: Seq<(u32, Seq<u8>)>, ack: u32) -> Seq<(u32, Seq<u8>)>
    decreases q.len(),
{
    if q.len() == 0 {
        Seq::empty()
    } else {
        let rest = spec_rtx_after_ack(q.drop_last(), ack);
        let e = q.last();
        if spec_seq_le(spec_wrap_add(e.0, e.1.len() as u32), ack) {
            rest
        } else {
            rest.push(e)
        }
    }
}

/// The mathematical value of the out-of-order queue: sequence numbers and
/// payload bytes, in order.
pub open spec fn spec_ooo_model(q: Seq<(u32, Vec<u8>)>) -> Seq<(u32, Seq<u8>)> {
    q.map(|i: int, e: (u32, Vec<u8>)| (e.0, e.1@))
}

/// The out-of-order queue with every entry under `key` removed.
pub open spec fn spec_ooo_remove(q: Seq<(u32, Seq<u8>)>, key: u32) -> Seq<(u32, Seq<u8>)>
    decreases q.len(),
{
    if q.len() == 0 {
        Seq::empty()
    } else if q.last().0 == key {
        spec_ooo_remove(q.drop_last(), key)
    } else {
        spec_ooo_remove(q.drop_last(), key).push(q.last())
    }
}

/// The per-connection TCP control block.
#[derive(Clone, Debug)]
pub struct Tcb {
    /// Connection state.
    pub state: TcpState,
    /// Initial send sequence number.
    pub iss: u32,
    /// Initial receive sequence number.
    pub irs: u32,
    /// Oldest unacknowledged send sequence number.
    pub snd_una: u32,
    /// Next send sequence number.
    pub snd_nxt: u32,
    /// Peer's advertised receive window.
    pub snd_wnd: u32,
    /// Next expected receive sequence number.
    pub rcv_nxt: u32,
    /// Our receive window.
    pub rcv_wnd: u32,
    /// Segments sent and not yet acknowledged, ordered by sequence number.
    pub rtx_queue: Vec<RtxEntry>,
    /// Payloads received ahead of `rcv_nxt`, keyed by sequence number.
    pub ooo_queue: Vec<(u32, Vec<u8>)>,
}

impl Tcb {
    /// A fresh control block in the Closed state.
    pub fn new() -> (r: Tcb)
        ensures
            r.state == TcpState::Closed,
            r.iss == 0 && r.irs == 0,
            r.snd_una == 0 && r.snd_nxt == 0 && r.snd_wnd == 0,
            r.rcv_nxt == 0 && r.rcv_wnd == 0,
            r.rtx_queue@.len() == 0,
            r.ooo_queue@.len() == 0,
    {
        Tcb {
            state: TcpState::Closed,
            iss: 0,
            irs: 0,
            snd_una: 0,
            snd_nxt: 0,
            snd_wnd: 0,
            rcv_nxt: 0,
            rcv_wnd: 0,
            rtx_queue: Vec::new(),
            ooo_queue: Vec::new(),
        }
    }
}

/// Drop acknowledged entries from the retransmit queue.
#[verifier::loop_isolation(false)]
pub fn rtx_drop_acked(q: &Vec<RtxEntry>, ack: u32) -> (r: Vec<RtxEntry>)
    requires
        forall|k: int| 0 <= k < q@.len() ==> (#[trigger] q@[k]).data@.len() <= 0xffff,
    ensures
        spec_rtx_model(r@) == spec_rtx_after_ack(spec_rtx_model(q@), ack),
        forall|k: int| 0 <= k < r@.len() ==> (#[trigger] r@[k]).data@.len() <= 0xffff,
{
    let mut out: Vec<RtxEntry> = Vec::new();
    let mut i: usize = 0;
    while i < q.len()
        invariant
            i <= q@.len(),
            spec_rtx_model(out@) == spec_rtx_after_ack(spec_rtx_model(q@.take(i as int)), ack),
            forall|k: int| 0 <= k < out@.len() ==> (#[trigger] out@[k]).data@.len() <= 0xffff,
        decreases q@.len() - i,
    {
        let e = &q[i];
        let right = wrap_add(e.seq, e.data.len() as u32);
        proof {
            assert(spec_rtx_model(q@.take(i + 1)).drop_last() =~= spec_rtx_model(
                q@.take(i as int),
            ));
            assert(spec_rtx_model(q@.take(i + 1)).last() == (q@[i as int].seq, q@[i as int].data@));
        }
        if !seq_le(right, ack) {
            let copied = RtxEntry { seq: e.seq, data: copy_bytes(&e.data) };
            out.push(copied);
            proof {
                assert(spec_rtx_model(out@) =~= spec_rtx_after_ack(
                    spec_rtx_model(q@.take(i + 1)),
                    ack,
                ));
            }
        }
        i = i + 1;
    }
    proof {
        assert(q@.take(q@.len() as int) =~= q@);
    }
    out
}

/// A fresh byte vector holding the bytes of a slice.
pub fn copy_bytes_slice(src: &[u8]) -> (r: Vec<u8>)
    ensures
        r@ == src@,
{
    let mut out: Vec<u8> = Vec::new();
    let mut i: usize = 0;
    while i < src.len()
        invariant
            i <= src@.len(),
            out@ == src@.take(i as int),
        decreases src@.len() - i,
    {
        out.push(src[i]);
        proof {
            assert(out@ =~= src@.take(i + 1));
        }
        i = i + 1;
    }
    proof {
        assert(out@ =~= src@);
    }
    out
}

/// A fresh copy of a byte vector.
pub fn copy_bytes(src: &Vec<u8>) -> (r: Vec<u8>)
    ensures
        r@ == src@,
{
    let mut out: Vec<u8> = Vec::new();
    let mut i: usize = 0;
    while i < src.len()
        invariant
            i <= src@.len(),
            out@ == src@.take(i as int),
        decreases src@.len() - i,
    {
        out.push(src[i]);
        proof {
            assert(out@ =~= src@.take(i + 1));
        }
        i = i + 1;
    }
    proof {
        assert(out@ =~= src@);
    }
    out
}

} // verus!
