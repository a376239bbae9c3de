//! Network packet buffer: one contiguous byte allocation with four cursors
//! `head <= data <= tail <= end`.
//!
//! `head` is always offset 0 of the allocation and `end` its length; neither
//! moves after allocation. `data` moves backward into the headroom on `push`
//! and forward on `pull`; `tail` moves forward into the tailroom on `put` and
//! backward on `trim`. The payload is the byte range `data..tail`.

use vstd::prelude::*;

use crate::ethernet::EtherType;
use crate::ipv4::Ipv4Addr;

verus! {

/// Standard headroom to reserve for headers.
pub const NET_SKB_PAD: usize = 64;

/// Maximum Ethernet frame size (without FCS).
pub const ETH_FRAME_LEN: usize = 1514;

/// Maximum packet size we'll allocate.
pub const MAX_SKB_SIZE: usize = 2048;

/// Checksum state for hardware offload.
#[derive(Clone, Copy, PartialEq, Eq, Structural, Debug)]
pub enum ChecksumState {
    /// No checksum computed
    Unchecked,
    /// Checksum verified by hardware
    Unnecessary,
    /// Partial checksum computed by hardware
    Partial,
    /// Complete checksum computed by hardware
    Complete,
}

/// Network packet buffer.
pub struct SkBuff {
    /// The allocation; `head` is offset 0, `end` is `buf.len()`.
    pub buf: Vec<u8>,
    /// Start of the payload, as an offset into `buf`.
    pub data: usize,
    /// End of the payload, as an offset into `buf`.
    pub tail: usize,

    /// EtherType tag (set on receive demultiplex).
    pub protocol: EtherType,
    /// IP protocol number (set by the IP layer).
    pub ip_protocol: u8,
    /// Transport header offset, relative to `data` when tagged.
    pub transport_header: usize,
    /// Network header offset, relative to `data` when tagged.
    pub network_header: usize,
    /// MAC header offset (usually 0).
    pub mac_header: usize,
    /// Source/destination device identifier.
    pub dev: Option<u32>,
    /// DMA address for zero-copy with a device.
    pub dma_addr: Option<u64>,
    /// Checksum offload state.
    pub ip_summed: ChecksumState,
    /// Source IPv4 address (set by the IP layer).
    pub saddr: Option<Ipv4Addr>,
    /// Destination IPv4 address (set by the IP layer).
    pub daddr: Option<Ipv4Addr>,
}

impl SkBuff {
    /// The `data` cursor, as an offset from `head`.
    pub open spec fn spec_data(self) -> int {
        self.data as int
    }

    /// The `tail` cursor, as an offset from `head`.
    pub open spec fn spec_tail(self) -> int {
        self.tail as int
    }

    /// The `end` cursor: the size of the allocation.
    pub open spec fn spec_end(self) -> int {
        self.buf@.len() as int
    }

    /// The whole allocation as bytes.
    pub open spec fn spec_buf(self) -> Seq<u8> {
        self.buf@
    }

    /// The cursor invariant `head <= data <= tail <= end`
    /// (`head` is offset 0 of the allocation).
    pub open spec fn wf(self) -> bool {
        0 <= self.spec_data() <= self.spec_tail() <= self.spec_end()
    }

    /// The payload bytes `data..tail`.
    pub open spec fn payload(self) -> Seq<u8> {
        self.spec_buf().subrange(self.spec_data(), self.spec_tail())
    }

    /// Payload length.
    pub open spec fn spec_len(self) -> int {
        self.spec_tail() - self.spec_data()
    }

    /// Headroom: bytes available in front of the payload.
    pub open spec fn spec_headroom(self) -> int {
        self.spec_data()
    }

    /// Tailroom: bytes available behind the payload.
    pub open spec fn spec_tailroom(self) -> int {
        self.spec_end() - self.spec_tail()
    }

    /// All attribute tags in their freshly-allocated state.
    pub open spec fn tags_clear(self) -> bool {
        &&& self.protocol == EtherType::Unknown(0u16)
        &&& self.ip_protocol == 0u8
        &&& self.transport_header == 0usize
        &&& self.network_header == 0usize
        &&& self.mac_header == 0usize
        &&& self.ip_summed == ChecksumState::Unchecked
        &&& self.saddr is None
        &&& self.daddr is None
    }

    /// Allocate a buffer with `headroom` bytes reserved before the payload
    /// and space for `data_len` payload bytes, all zeroed. Fails ("out of
    /// memory") exactly when the total exceeds `MAX_SKB_SIZE`.
    pub fn allocate(headroom: usize, data_len: usize) -> (r: Option<SkBuff>)
        ensures
            r is Some <==> headroom + data_len <= MAX_SKB_SIZE,
            r is Some ==> {
                let s = r->Some_0;
                &&& s.wf()
                &&& s.spec_data() == headroom
                &&& s.spec_tail() == headroom
                &&& s.spec_end() == headroom + data_len
                &&& s.spec_buf() == Seq::new((headroom + data_len) as nat, |i: int| 0u8)
                &&& s.tags_clear()
                &&& s.dev is None
                &&& s.dma_addr is None
            },
    {
        if headroom > MAX_SKB_SIZE || data_len > MAX_SKB_SIZE - headroom {
            return None;
        }
        let total: usize = headroom + data_len;
        let mut buf: Vec<u8> = Vec::new();
        let mut i: usize = 0;
        while i < total
            invariant
                i <= total,
                buf@.len() == i,
                forall|j: int| 0 <= j < i ==> buf@[j] == 0u8,
            decreases total - i,
        {
            buf.push(0u8);
            i = i + 1;
        }
        proof {
            assert(buf@ =~= Seq::new(total as nat, |i: int| 0u8));
        }
        Some(SkBuff {
            buf,
            data: headroom,
            tail: headroom,
            protocol: EtherType::Unknown(0),
            ip_protocol: 0,
            transport_header: 0,
            network_header: 0,
            mac_header: 0,
            dev: None,
            dma_addr: None,
            ip_summed: ChecksumState::Unchecked,
            saddr: None,
            daddr: None,
        })
    }

    /// Allocate a buffer for receiving: standard headroom plus room for a
    /// maximum-size Ethernet frame.
    pub fn alloc_rx() -> (r: Option<SkBuff>)
        ensures
            r is Some,
            r->Some_0.wf(),
            r->Some_0.spec_data() == NET_SKB_PAD,
            r->Some_0.spec_tail() == NET_SKB_PAD,
            r->Some_0.spec_end() == NET_SKB_PAD + ETH_FRAME_LEN,
            r->Some_0.spec_buf() == Seq::new((NET_SKB_PAD + ETH_FRAME_LEN) as nat, |i: int| 0u8),
            r->Some_0.tags_clear(),
            r->Some_0.dev is None,
            r->Some_0.dma_addr is None,
    {
        Self::allocate(NET_SKB_PAD, ETH_FRAME_LEN)
    }

    /// Allocate a buffer for transmitting, with headroom for Ethernet (14),
    /// IPv4 (up to 60) and TCP (up to 60) headers. Fails when the headers
    /// plus `data_len` exceed `MAX_SKB_SIZE`.
    pub fn alloc_tx(data_len: usize) -> (r: Option<SkBuff>)
        ensures
            r is Some <==> 134 + data_len <= MAX_SKB_SIZE,
            r is Some ==> {
                let s = r->Some_0;
                &&& s.wf()
                &&& s.spec_data() == 134
                &&& s.spec_tail() == 134
                &&& s.spec_end() == 134 + data_len
                &&& s.spec_buf() == Seq::new((134 + data_len) as nat, |i: int| 0u8)
                &&& s.tags_clear()
                &&& s.dev is None
                &&& s.dma_addr is None
            },
    {
        let headroom: usize = 14 + 60 + 60;
        Self::allocate(headroom, data_len)
    }

    /// Current payload length.
    pub fn len(&self) -> (r: usize)
        requires
            self.wf(),
        ensures
            r == self.spec_len(),
    {
        self.tail - self.data
    }

    /// True when the payload is empty.
    pub fn is_empty(&self) -> (r: bool)
        requires
            self.wf(),
        ensures
            r == (self.spec_len() == 0),
    {
        self.len() == 0
    }

    /// Space before the payload.
    pub fn headroom(&self) -> (r: usize)
        ensures
            r == self.spec_headroom(),
    {
        self.data
    }

    /// Space after the payload.
    pub fn tailroom(&self) -> (r: usize)
        requires
            self.wf(),
        ensures
            r == self.spec_tailroom(),
    {
        self.buf.len() - self.tail
    }

    /// The payload as a fresh byte vector.
    pub fn data(&self) -> (r: Vec<u8>)
        requires
            self.wf(),
        ensures
            r@ == self.payload(),
    {
        let mut out: Vec<u8> = Vec::new();
        let mut i: usize = self.data;
        while i < self.tail
            invariant
                self.wf(),
                self.spec_data() <= i <= self.spec_tail(),
                out@ == self.spec_buf().subrange(self.spec_data(), i as int),
            decreases self.spec_tail() - i,
        {
            out.push(self.buf[i]);
            proof {
                assert(out@ =~= self.spec_buf().subrange(self.spec_data(), i + 1));
            }
            i = i + 1;
        }
        out
    }

    /// Reserve headroom on an empty buffer, moving `data` forward.
    /// Fails exactly when `len` exceeds the space up to `end`.
    pub fn reserve(&mut self, len: usize) -> (r: Option<()>)
        requires
            old(self).wf(),
            old(self).spec_len() == 0,
        ensures
            final(self).wf(),
            r is Some <==> len <= old(self).spec_tailroom(),
            r is Some ==> {
                &&& final(self).spec_data() == old(self).spec_data() + len
                &&& final(self).spec_tail() == final(self).spec_data()
                &&& final(self).spec_buf() == old(self).spec_buf()
            },
            r is None ==> *final(self) == *old(self),
            final(self).protocol == old(self).protocol,
            final(self).spec_end() == old(self).spec_end(),
    {
        if len > self.buf.len() - self.tail {
            return None;
        }
        self.data = self.data + len;
        self.tail = self.data;
        Some(())
    }

    /// Prepend `len` bytes to the payload by moving `data` backward into the
    /// headroom; the prepended bytes keep whatever the buffer held there.
    /// Fails exactly when the headroom is smaller than `len`.
    pub fn push(&mut self, len: usize) -> (r: Option<()>)
        requires
            old(self).wf(),
        ensures
            final(self).wf(),
            r is Some <==> len <= old(self).spec_headroom(),
            r is Some ==> {
                &&& final(self).spec_data() == old(self).spec_data() - len
                &&& final(self).spec_tail() == old(self).spec_tail()
                &&& final(self).spec_buf() == old(self).spec_buf()
            },
            r is None ==> *final(self) == *old(self),
    {
        if self.data < len {
            return None;
        }
        self.data = self.data - len;
        Some(())
    }

    /// Consume `len` bytes from the front of the payload, returning them and
    /// moving `data` forward. Fails exactly when the payload is shorter than
    /// `len`.
    pub fn pull(&mut self, len: usize) -> (r: Option<Vec<u8>>)
        requires
            old(self).wf(),
        ensures
            final(self).wf(),
            r is Some <==> len <= old(self).spec_len(),
            r is Some ==> {
                &&& r->Some_0@ == old(self).payload().subrange(0, len as int)
                &&& final(self).spec_data() == old(self).spec_data() + len
                &&& final(self).spec_tail() == old(self).spec_tail()
                &&& final(self).spec_buf() == old(self).spec_buf()
                &&& final(self).payload() == old(self).payload().skip(len as int)
            },
            r is None ==> *final(self) == *old(self),
    {
        if self.tail - self.data < len {
            return None;
        }
        let mut out: Vec<u8> = Vec::new();
        let mut i: usize = self.data;
        let stop: usize = self.data + len;
        while i < stop
            invariant
                self.wf(),
                stop == self.spec_data() + len,
                stop <= self.spec_tail(),
                self.spec_data() <= i <= stop,
                out@ == self.spec_buf().subrange(self.spec_data(), i as int),
            decreases stop - i,
        {
            out.push(self.buf[i]);
            proof {
                assert(out@ =~= self.spec_buf().subrange(self.spec_data(), i + 1));
            }
            i = i + 1;
        }
        self.data = self.data + len;
        proof {
            assert(out@ =~= old(self).payload().subrange(0, len as int));
            assert(self.payload() =~= old(self).payload().skip(len as int));
        }
        Some(out)
    }

    /// Append `len` bytes at `tail`, moving it forward into the tailroom;
    /// the appended bytes keep whatever the buffer held there. Fails exactly
    /// when the tailroom is smaller than `len`.
    pub fn put(&mut self, len: usize) -> (r: Option<()>)
        requires
            old(self).wf(),
        ensures
            final(self).wf(),
            r is Some <==> len <= old(self).spec_tailroom(),
            r is Some ==> {
                &&& final(self).spec_data() == old(self).spec_data()
                &&& final(self).spec_tail() == old(self).spec_tail() + len
                &&& final(self).spec_buf() == old(self).spec_buf()
            },
            r is None ==> *final(self) == *old(self),
    {
        if self.buf.len() - self.tail < len {
            return None;
        }
        self.tail = self.tail + len;
        Some(())
    }

    /// Append the bytes of `src` to the payload. Fails exactly when the
    /// tailroom is smaller than `src`.
    pub fn put_slice(&mut self, src: &[u8]) -> (r: Option<()>)
        requires
            old(self).wf(),
        ensures
            final(self).wf(),
            r is Some <==> src@.len() <= old(self).spec_tailroom(),
            r is Some ==> {
                &&& final(self).spec_data() == old(self).spec_data()
                &&& final(self).spec_tail() == old(self).spec_tail() + src@.len()
                &&& final(self).payload() == old(self).payload() + src@
                &&& final(self).spec_buf().subrange(0, old(self).spec_tail())
                    == old(self).spec_buf().subrange(0, old(self).spec_tail())
                &&& final(self).spec_end() == old(self).spec_end()
            },
            r is None ==> *final(self) == *old(self),
    {
        let n: usize = src.len();
        if self.buf.len() - self.tail < n {
            return None;
        }
        let base: usize = self.tail;
        let cap: usize = self.buf.len();
        let mut i: usize = 0;
        while i < n
            invariant
                self.wf(),
                n == src@.len(),
                i <= n,
                base == self.spec_tail(),
                base + n <= cap,
                cap == self.spec_buf().len(),
                self.spec_data() == old(self).spec_data(),
                self.spec_tail() == old(self).spec_tail(),
                self.spec_buf().len() == old(self).spec_buf().len(),
                forall|j: int| 0 <= j < self.spec_buf().len() && !(base <= j < base + i)
                    ==> self.spec_buf()[j] == old(self).spec_buf()[j],
                forall|j: int| 0 <= j < i ==> self.spec_buf()[base + j] == src@[j],
            decreases n - i,
        {
            let idx: usize = base + i;
            self.buf[idx] = src[i];
            i = i + 1;
        }
        self.tail = self.tail + n;
        proof {
            assert(self.payload() =~= old(self).payload() + src@);
            assert(self.spec_buf().subrange(0, old(self).spec_tail())
                =~= old(self).spec_buf().subrange(0, old(self).spec_tail()));
        }
        Some(())
    }

    /// Overwrite `src.len()` payload bytes starting `offset` bytes into the
    /// payload. Fails exactly when the range does not fit in the payload.
    pub fn write_payload(&mut self, offset: usize, src: &[u8]) -> (r: Option<()>)
        requires
            old(self).wf(),
        ensures
            final(self).wf(),
            r is Some <==> offset + src@.len() <= old(self).spec_len(),
            r is Some ==> {
                &&& final(self).spec_data() == old(self).spec_data()
                &&& final(self).spec_tail() == old(self).spec_tail()
                &&& final(self).spec_end() == old(self).spec_end()
                &&& final(self).payload() == old(self).payload().take(offset as int)
                    + src@ + old(self).payload().skip(offset + src@.len())
            },
            r is None ==> *final(self) == *old(self),
    {
        let n: usize = src.len();
        if offset > self.tail - self.data || n > self.tail - self.data - offset {
            return None;
        }
        let start: usize = self.data + offset;
        let mut i: usize = 0;
        while i < n
            invariant
                self.wf(),
                n == src@.len(),
                i <= n,
                start == self.spec_data() + offset,
                start + n <= self.spec_tail(),
                self.spec_data() == old(self).spec_data(),
                self.spec_tail() == old(self).spec_tail(),
                self.spec_buf().len() == old(self).spec_buf().len(),
                forall|j: int| 0 <= j < self.spec_buf().len() && !(start <= j < start + i)
                    ==> self.spec_buf()[j] == old(self).spec_buf()[j],
                forall|j: int| 0 <= j < i ==> self.spec_buf()[start + j] == src@[j],
            decreases n - i,
        {
            let idx: usize = start + i;
            self.buf[idx] = src[i];
            i = i + 1;
        }
        proof {
            assert(self.payload() =~= old(self).payload().take(offset as int)
                + src@ + old(self).payload().skip(offset + src@.len()));
        }
        Some(())
    }

    /// Remove `len` bytes from the end of the payload by moving `tail`
    /// backward. Fails exactly when the payload is shorter than `len`.
    pub fn trim(&mut self, len: usize) -> (r: Option<()>)
        requires
            old(self).wf(),
        ensures
            final(self).wf(),
            r is Some <==> len <= old(self).spec_len(),
            r is Some ==> {
                &&& final(self).spec_data() == old(self).spec_data()
                &&& final(self).spec_tail() == old(self).spec_tail() - len
                &&& final(self).spec_buf() == old(self).spec_buf()
            },
            r is None ==> *final(self) == *old(self),
    {
        if self.tail - self.data < len {
            return None;
        }
        self.tail = self.tail - len;
        Some(())
    }

    /// Set the payload length, growing with `put` or shrinking with `trim`.
    /// Fails exactly when `len` exceeds the space from `data` to `end`.
    pub fn set_len(&mut self, len: usize) -> (r: Option<()>)
        requires
            old(self).wf(),
        ensures
            final(self).wf(),
            r is Some <==> old(self).spec_data() + len <= old(self).spec_end(),
            r is Some ==> {
                &&& final(self).spec_data() == old(self).spec_data()
                &&& final(self).spec_len() == len
                &&& final(self).spec_buf() == old(self).spec_buf()
            },
            r is None ==> *final(self) == *old(self),
    {
        let current: usize = self.tail - self.data;
        if len > current {
            self.put(len - current)
        } else if len < current {
            self.trim(current - len)
        } else {
            Some(())
        }
    }

    /// Return to the empty state with the given headroom, keeping the
    /// allocation and clearing all tags. Fails exactly when `headroom`
    /// exceeds the allocation size.
    pub fn reset(&mut self, headroom: usize) -> (r: Option<()>)
        requires
            old(self).wf(),
        ensures
            final(self).wf(),
            r is Some <==> headroom <= old(self).spec_end(),
            r is Some ==> {
                &&& final(self).spec_data() == headroom
                &&& final(self).spec_tail() == headroom
                &&& final(self).spec_buf() == old(self).spec_buf()
                &&& final(self).tags_clear()
                &&& final(self).dev == old(self).dev
                &&& final(self).dma_addr == old(self).dma_addr
            },
            r is None ==> *final(self) == *old(self),
    {
        if headroom > self.buf.len() {
            return None;
        }
        self.data = headroom;
        self.tail = headroom;
        self.protocol = EtherType::Unknown(0);
        self.ip_protocol = 0;
        self.transport_header = 0;
        self.network_header = 0;
        self.mac_header = 0;
        self.ip_summed = ChecksumState::Unchecked;
        self.saddr = None;
        self.daddr = None;
        Some(())
    }

    /// Tag the network header at the current front of the payload.
    pub fn set_network_header(&mut self)
        ensures
            *final(self) == (SkBuff { network_header: 0usize, ..*old(self) }),
    {
        self.network_header = 0;
    }

    /// Tag the network header `offset` bytes into the payload.
    pub fn set_network_header_offset(&mut self, offset: usize)
        ensures
            *final(self) == (SkBuff { network_header: offset, ..*old(self) }),
    {
        self.network_header = offset;
    }

    /// Tag the transport header `offset` bytes into the payload.
    pub fn set_transport_header(&mut self, offset: usize)
        ensures
            *final(self) == (SkBuff { transport_header: offset, ..*old(self) }),
    {
        self.transport_header = offset;
    }

    /// Tag the MAC header at the current front of the payload.
    pub fn set_mac_header(&mut self)
        ensures
            *final(self) == (SkBuff { mac_header: 0usize, ..*old(self) }),
    {
        self.mac_header = 0;
    }

    /// The payload from the network header tag onward.
    pub fn network_header(&self) -> (r: Vec<u8>)
        requires
            self.wf(),
            self.network_header <= self.spec_len(),
        ensures
            r@ == self.payload().skip(self.network_header as int),
    {
        self.payload_from(self.network_header)
    }

    /// The payload from the transport header tag onward.
    pub fn transport_header(&self) -> (r: Vec<u8>)
        requires
            self.wf(),
            self.transport_header <= self.spec_len(),
        ensures
            r@ == self.payload().skip(self.transport_header as int),
    {
        self.payload_from(self.transport_header)
    }

    /// The payload from the MAC header tag onward.
    pub fn mac_header(&self) -> (r: Vec<u8>)
        requires
            self.wf(),
            self.mac_header <= self.spec_len(),
        ensures
            r@ == self.payload().skip(self.mac_header as int),
    {
        self.payload_from(self.mac_header)
    }

    /// The payload from `offset` onward, as a fresh vector.
    fn payload_from(&self, offset: usize) -> (r: Vec<u8>)
        requires
            self.wf(),
            offset <= self.spec_len(),
        ensures
            r@ == self.payload().skip(offset as int),
    {
        let mut out: Vec<u8> = Vec::new();
        let mut i: usize = self.data + offset;
        while i < self.tail
            invariant
                self.wf(),
                self.spec_data() + offset <= i <= self.spec_tail(),
                out@ == self.spec_buf().subrange(self.spec_data() + offset, i as int),
            decreases self.spec_tail() - i,
        {
            out.push(self.buf[i]);
            proof {
                assert(out@ =~= self.spec_buf().subrange(self.spec_data() + offset, i + 1));
            }
            i = i + 1;
        }
        proof {
            assert(out@ =~= self.payload().skip(offset as int));
        }
        out
    }
}

} // verus!
