//! Sockets: address families, the socket object, sockaddr encoding, and
//! the file-operation logic (read, write, poll) over the socket's byte
//! queues.
//!
//! Blocking is a decision, not an action, here: the read and write steps
//! report `Block` and the caller suspends on the matching wait queue and
//! retries after a wake.

use vstd::prelude::*;

use crate::ipv4::Ipv4Addr;
use crate::tcp::{spec_rtx_model, spec_wrap_add, Tcb, TcpState, TCP_ACK, TCP_PSH};
use crate::tcp_output::{spec_chunks, spec_tcp_segment_bytes, spec_usable_window, tcp_close};
use crate::FsError;

verus! {

/// The IPv4 address family.
pub const AF_INET: i32 = 2;

/// Stream socket type.
pub const SOCK_STREAM: i32 = 1;

/// Datagram socket type.
pub const SOCK_DGRAM: i32 = 2;

/// Raw socket type.
pub const SOCK_RAW: i32 = 3;

/// Type flag: create the socket non-blocking.
pub const SOCK_NONBLOCK: i32 = 0x800;

/// Type flag: close the descriptor on exec.
pub const SOCK_CLOEXEC: i32 = 0x80000;

/// Poll: data may be read.
pub const POLLIN: u16 = 0x0001;

/// Poll: normal data may be read.
pub const POLLRDNORM: u16 = 0x0040;

/// Poll: data may be written.
pub const POLLOUT: u16 = 0x0004;

/// Poll: normal data may be written.
pub const POLLWRNORM: u16 = 0x0100;

/// Poll: an error is pending.
pub const POLLERR: u16 = 0x0008;

/// Poll: the peer hung up.
pub const POLLHUP: u16 = 0x0010;

/// Address family of a socket.
#[derive(Clone, Copy, PartialEq, Eq, Structural, Debug)]
pub enum AddressFamily {
    /// IPv4
    Inet,
}

impl AddressFamily {
    /// The address family for a numeric domain, `None` when unsupported.
    pub fn from_i32(domain: i32) -> (r: Option<AddressFamily>)
        ensures
            r is Some <==> domain == AF_INET,
            r is Some ==> r->Some_0 == AddressFamily::Inet,
    {
        if domain == AF_INET {
            Some(AddressFamily::Inet)
        } else {
            None
        }
    }
}

/// Type of a socket.
#[derive(Clone, Copy, PartialEq, Eq, Structural, Debug)]
pub enum SocketType {
    /// Connection-oriented byte stream
    Stream,
    /// Datagrams
    Dgram,
    /// Raw network access
    Raw,
}

impl SocketType {
    /// The socket type for a numeric value, `None` when unknown.
    pub fn from_i32(t: i32) -> (r: Option<SocketType>)
        ensures
            r == if t == SOCK_STREAM {
                Some(SocketType::Stream)
            } else if t == SOCK_DGRAM {
                Some(SocketType::Dgram)
            } else if t == SOCK_RAW {
                Some(SocketType::Raw)
            } else {
                None::<SocketType>
            },
    {
        if t == SOCK_STREAM {
            Some(SocketType::Stream)
        } else if t == SOCK_DGRAM {
            Some(SocketType::Dgram)
        } else if t == SOCK_RAW {
            Some(SocketType::Raw)
        } else {
            None
        }
    }
}

/// An IPv4 socket address: family, port and address as plain host-order
/// values; the wire layout is produced and consumed by the codec below.
#[derive(Clone, Copy, PartialEq, Eq, Structural, Debug)]
pub struct SockAddrIn {
    /// Address family (AF_INET when valid).
    pub sin_family: u16,
    /// Port number.
    pub sin_port: u16,
    /// IPv4 address.
    pub sin_addr: Ipv4Addr,
}

/// Size of the on-wire sockaddr_in layout.
pub const SOCKADDR_IN_LEN: usize = 16;

/// The sockaddr_in a 16-byte buffer decodes to: family little-endian,
/// port big-endian, address big-endian, eight bytes of padding ignored.
pub open spec fn spec_sockaddr_decode(b: Seq<u8>) -> SockAddrIn
    recommends
        b.len() >= 16,
{
    SockAddrIn {
        sin_family: (((b[1] as u16) << 8) | (b[0] as u16)) as u16,
        sin_port: crate::ethernet::spec_be16(b[2], b[3]),
        sin_addr: Ipv4Addr { bits: crate::tcp::spec_be32(b[4], b[5], b[6], b[7]) },
    }
}

/// Decode a sockaddr_in from its 16-byte wire layout. Fails exactly when
/// fewer than 16 bytes are given.
pub fn sockaddr_in_decode(b: &[u8]) -> (r: Option<SockAddrIn>)
    ensures
        r is Some <==> b@.len() >= SOCKADDR_IN_LEN,
        r is Some ==> r->Some_0 == spec_sockaddr_decode(b@),
{
    if b.len() < SOCKADDR_IN_LEN {
        return None;
    }
    let sin_family: u16 = ((b[1] as u16) << 8) | (b[0] as u16);
    let sin_port: u16 = ((b[2] as u16) << 8) | (b[3] as u16);
    let bits: u32 = ((b[4] as u32) << 24) | ((b[5] as u32) << 16) | ((b[6] as u32) << 8) | (
    b[7] as u32);
    Some(SockAddrIn { sin_family, sin_port, sin_addr: Ipv4Addr { bits } })
}

/// The 16-byte wire layout of a sockaddr_in.
pub open spec fn spec_sockaddr_encode(sa: SockAddrIn) -> Seq<u8> {
    seq![
        (sa.sin_family & 0xff) as u8,
        (sa.sin_family >> 8) as u8,
        (sa.sin_port >> 8) as u8,
        (sa.sin_port & 0xff) as u8,
        (sa.sin_addr.bits >> 24) as u8,
        ((sa.sin_addr.bits >> 16) & 0xff) as u8,
        ((sa.sin_addr.bits >> 8) & 0xff) as u8,
        (sa.sin_addr.bits & 0xff) as u8,
        0u8,
        0u8,
        0u8,
        0u8,
        0u8,
        0u8,
        0u8,
        0u8,
    ]
}

/// Encode a sockaddr_in into its 16-byte wire layout.
pub fn sockaddr_in_encode(sa: &SockAddrIn) -> (r: Vec<u8>)
    ensures
        r@ == spec_sockaddr_encode(*sa),
        r@.len() == SOCKADDR_IN_LEN,
{
    let mut out: Vec<u8> = Vec::new();
    out.push((sa.sin_family & 0xff) as u8);
    out.push((sa.sin_family >> 8) as u8);
    out.push((sa.sin_port >> 8) as u8);
    out.push((sa.sin_port & 0xff) as u8);
    out.push((sa.sin_addr.bits >> 24) as u8);
    out.push(((sa.sin_addr.bits >> 16) & 0xff) as u8);
    out.push(((sa.sin_addr.bits >> 8) & 0xff) as u8);
    out.push((sa.sin_addr.bits & 0xff) as u8);
    out.push(0);
    out.push(0);
    out.push(0);
    out.push(0);
    out.push(0);
    out.push(0);
    out.push(0);
    out.push(0);
    proof {
        assert(out@ =~= spec_sockaddr_encode(*sa));
    }
    out
}

/// A socket: addressing, the TCP control block, the receive and transmit
/// byte queues, and the sticky flags the wait queues guard.
#[derive(Clone, Debug)]
pub struct Socket {
    /// Address family.
    pub family: AddressFamily,
    /// Socket type.
    pub stype: SocketType,
    /// Protocol number (0 or 6 for TCP).
    pub protocol: i32,
    /// TCP control block, present on stream sockets.
    pub tcb: Option<Tcb>,
    /// Bound local address and port.
    pub local: Option<(Ipv4Addr, u16)>,
    /// Connected remote address and port.
    pub remote: Option<(Ipv4Addr, u16)>,
    /// Received bytes awaiting a reader.
    pub rx_buf: Vec<u8>,
    /// Transmit byte queue of the data model. The send path segments
    /// writes immediately (or refuses them), so this queue stays empty;
    /// it is kept for the socket's shape.
    pub tx_buf: Vec<u8>,
    /// Whether operations return instead of blocking.
    pub nonblocking: bool,
    /// End of stream was reached (peer FIN or shutdown).
    pub eof: bool,
    /// Pending error as a positive errno, sticky until consumed; 0 = none.
    pub error: i32,
}

impl Socket {
    /// A fresh stream socket with a closed TCP control block.
    pub fn new(family: AddressFamily, stype: SocketType, protocol: i32) -> (r: Socket)
        ensures
            r.family == family,
            r.stype == stype,
            r.protocol == protocol,
            r.tcb is Some,
            r.tcb->0.state == TcpState::Closed,
            r.tcb->0.rtx_queue@.len() == 0,
            r.tcb->0.ooo_queue@.len() == 0,
            r.tcb->0.snd_una == 0 && r.tcb->0.snd_nxt == 0 && r.tcb->0.rcv_nxt == 0,
            r.local is None,
            r.remote is None,
            r.rx_buf@.len() == 0,
            r.tx_buf@.len() == 0,
            !r.nonblocking,
            !r.eof,
            r.error == 0,
    {
        Socket {
            family,
            stype,
            protocol,
            tcb: Some(Tcb::new()),
            local: None,
            remote: None,
            rx_buf: Vec::new(),
            tx_buf: Vec::new(),
            nonblocking: false,
            eof: false,
            error: 0,
        }
    }

    /// Record the pending error (a positive errno), delivered on the next
    /// read, write or SO_ERROR query.
    pub fn set_error(&mut self, errno: i32)
        ensures
            *final(self) == (Socket { error: errno, ..*old(self) }),
    {
        self.error = errno;
    }

    /// Consume and clear the pending error; 0 when none is pending.
    pub fn take_error(&mut self) -> (r: i32)
        ensures
            r == old(self).error,
            *final(self) == (Socket { error: 0, ..*old(self) }),
    {
        let e = self.error;
        self.error = 0;
        e
    }

    /// Mark end of stream for readers.
    pub fn set_eof(&mut self)
        ensures
            *final(self) == (Socket { eof: true, ..*old(self) }),
    {
        self.eof = true;
    }

    /// Whether end of stream was reached.
    pub fn is_eof(&self) -> (r: bool)
        ensures
            r == self.eof,
    {
        self.eof
    }

    /// Set or clear non-blocking mode.
    pub fn set_nonblocking(&mut self, nb: bool)
        ensures
            *final(self) == (Socket { nonblocking: nb, ..*old(self) }),
    {
        self.nonblocking = nb;
    }

    /// Whether the socket is non-blocking.
    pub fn is_nonblocking(&self) -> (r: bool)
        ensures
            r == self.nonblocking,
    {
        self.nonblocking
    }

    /// Record the bound local address and port.
    pub fn set_local(&mut self, addr: Ipv4Addr, port: u16)
        ensures
            *final(self) == (Socket { local: Some((addr, port)), ..*old(self) }),
    {
        self.local = Some((addr, port));
    }

    /// Record the connected remote address and port.
    pub fn set_remote(&mut self, addr: Ipv4Addr, port: u16)
        ensures
            *final(self) == (Socket { remote: Some((addr, port)), ..*old(self) }),
    {
        self.remote = Some((addr, port));
    }

    /// The bound local address and port.
    pub fn local_addr(&self) -> (r: Option<(Ipv4Addr, u16)>)
        ensures
            r == self.local,
    {
        self.local
    }

    /// The connected remote address and port.
    pub fn remote_addr(&self) -> (r: Option<(Ipv4Addr, u16)>)
        ensures
            r == self.remote,
    {
        self.remote
    }

    /// Append received in-order payload bytes to the receive queue.
    pub fn deliver_data(&mut self, payload: &[u8])
        ensures
            final(self).rx_buf@ == old(self).rx_buf@ + payload@,
            *final(self) == (Socket { rx_buf: final(self).rx_buf, ..*old(self) }),
    {
        let mut i: usize = 0;
        while i < payload.len()
            invariant
                i <= payload@.len(),
                self.rx_buf@ == old(self).rx_buf@ + payload@.take(i as int),
                *self == (Socket { rx_buf: self.rx_buf, ..*old(self) }),
            decreases payload@.len() - i,
        {
            self.rx_buf.push(payload[i]);
            proof {
                assert(self.rx_buf@ =~= old(self).rx_buf@ + payload@.take(i + 1));
            }
            i = i + 1;
        }
        proof {
            assert(self.rx_buf@ =~= old(self).rx_buf@ + payload@);
        }
    }
}

/// The outcome of one receive attempt.
#[derive(Clone, Debug)]
pub enum ReadOutcome {
    /// Bytes drained from the receive queue.
    Data(Vec<u8>),
    /// End of stream: the caller gets 0.
    Eof,
    /// Nothing available on a non-blocking socket.
    WouldBlock,
    /// The sticky error, consumed, as a positive errno.
    ErrPending(i32),
    /// Nothing available: suspend on the RX wait queue and retry.
    Block,
}

/// One attempt to read up to `buf_len` bytes, exactly as the socket file
/// operation decides it: a pending error first; then queued data, up to
/// `buf_len` bytes off the front; then end-of-stream (peer FIN, shutdown,
/// or a Closed or TimeWait connection) as `Eof`; otherwise would-block or
/// a suspension on the RX wait queue.
#[verifier::loop_isolation(false)]
pub fn socket_read_step(sock: &mut Socket, buf_len: usize, file_nonblock: bool) -> (r: ReadOutcome)
    ensures
        old(sock).error != 0 ==> r == ReadOutcome::ErrPending(old(sock).error) && *final(sock) == (
        Socket { error: 0, ..*old(sock) }),
        old(sock).error == 0 && old(sock).rx_buf@.len() > 0 ==> {
            let n = if buf_len <= old(sock).rx_buf@.len() {
                buf_len as int
            } else {
                old(sock).rx_buf@.len() as int
            };
            &&& r matches ReadOutcome::Data(d) && d@ == old(sock).rx_buf@.take(n)
            &&& final(sock).rx_buf@ == old(sock).rx_buf@.skip(n)
            &&& *final(sock) == (Socket { rx_buf: final(sock).rx_buf, ..*old(sock) })
        },
        old(sock).error == 0 && old(sock).rx_buf@.len() == 0 ==> *final(sock) == *old(sock) && r
            == spec_empty_read_outcome(*old(sock), file_nonblock),
{
    if self_error_pending(sock) {
        let e = sock.take_error();
        return ReadOutcome::ErrPending(e);
    }
    if sock.rx_buf.len() > 0 {
        let n: usize = if buf_len <= sock.rx_buf.len() {
            buf_len
        } else {
            sock.rx_buf.len()
        };
        let mut data: Vec<u8> = Vec::new();
        let mut i: usize = 0;
        while i < n
            invariant
                n <= sock.rx_buf@.len(),
                i <= n,
                data@ == sock.rx_buf@.take(n as int).take(i as int),
            decreases n - i,
        {
            data.push(sock.rx_buf[i]);
            proof {
                assert(data@ =~= sock.rx_buf@.take(n as int).take(i + 1));
            }
            i = i + 1;
        }
        proof {
            assert(data@ =~= sock.rx_buf@.take(n as int));
        }
        let rest = drain_front(&sock.rx_buf, n);
        sock.rx_buf = rest;
        return ReadOutcome::Data(data);
    }
    if sock.eof {
        return ReadOutcome::Eof;
    }
    match &sock.tcb {
        Some(tcb) => {
            if tcb.state == TcpState::Closed || tcb.state == TcpState::TimeWait {
                return ReadOutcome::Eof;
            }
        },
        None => {},
    }
    if file_nonblock || sock.nonblocking {
        ReadOutcome::WouldBlock
    } else {
        ReadOutcome::Block
    }
}

/// What an empty-queue read decides, given the socket's state.
pub open spec fn spec_empty_read_outcome(s: Socket, file_nonblock: bool) -> ReadOutcome {
    if s.eof {
        ReadOutcome::Eof
    } else if s.tcb is Some && (s.tcb->0.state == TcpState::Closed || s.tcb->0.state
        == TcpState::TimeWait) {
        ReadOutcome::Eof
    } else if file_nonblock || s.nonblocking {
        ReadOutcome::WouldBlock
    } else {
        ReadOutcome::Block
    }
}

/// Whether an error is pending, without consuming it.
fn self_error_pending(sock: &Socket) -> (r: bool)
    ensures
        r == (sock.error != 0),
{
    sock.error != 0
}

/// The queue with its first `n` bytes removed.
fn drain_front(v: &Vec<u8>, n: usize) -> (r: Vec<u8>)
    requires
        n <= v@.len(),
    ensures
        r@ == v@.skip(n as int),
{
    let mut out: Vec<u8> = Vec::new();
    let mut i: usize = n;
    while i < v.len()
        invariant
            n <= i <= v@.len(),
            out@ == v@.subrange(n as int, i as int),
        decreases v@.len() - i,
    {
        out.push(v[i]);
        proof {
            assert(out@ =~= v@.subrange(n as int, i + 1));
        }
        i = i + 1;
    }
    proof {
        assert(out@ =~= v@.skip(n as int));
    }
    out
}

/// The poll bitmask for a socket: IN|RDNORM when the receive queue is
/// non-empty; OUT|WRNORM always, since the send path segments writes
/// immediately and the transmit queue therefore always has space; ERR
/// when an error is pending; HUP on end of stream or a Closed or
/// TimeWait connection.
pub fn socket_poll_mask(sock: &Socket) -> (r: u16)
    ensures
        r == spec_poll_mask(*sock),
{
    let readable: bool = sock.rx_buf.len() > 0;
    let err: bool = sock.error != 0;
    let hup: bool = sock.eof || (match &sock.tcb {
        Some(tcb) => tcb.state == TcpState::Closed || tcb.state == TcpState::TimeWait,
        None => false,
    });
    let mask: u16 = (if readable {
        POLLIN | POLLRDNORM
    } else {
        0
    }) | (POLLOUT | POLLWRNORM) | (if err {
        POLLERR
    } else {
        0
    }) | (if hup {
        POLLHUP
    } else {
        0
    });
    mask
}

/// The poll bitmask built from the three observable conditions.
pub open spec fn spec_poll_mask_value(readable: bool, err: bool, hup: bool) -> u16 {
    (if readable {
        (POLLIN | POLLRDNORM) as u16
    } else {
        0u16
    }) | (POLLOUT | POLLWRNORM) as u16 | (if err {
        POLLERR as u16
    } else {
        0u16
    }) | (if hup {
        POLLHUP as u16
    } else {
        0u16
    })
}

/// The poll bitmask for a socket.
pub open spec fn spec_poll_mask(s: Socket) -> u16 {
    spec_poll_mask_value(
        s.rx_buf@.len() > 0,
        s.error != 0,
        s.eof || (s.tcb is Some && (s.tcb->0.state == TcpState::Closed || s.tcb->0.state
            == TcpState::TimeWait)),
    )
}

/// All sockets of the process, indexed by file descriptor; a slot is
/// `None` after its descriptor is closed.
pub struct SocketTable {
    /// Socket slots; the index is the file descriptor.
    pub sockets: Vec<Option<Socket>>,
}

/// Every socket's retransmit-queue entries carry segments whose payload
/// length fits the 16-bit length of the TCP pseudo-header.
pub open spec fn spec_table_wf(t: SocketTable) -> bool {
    forall|i: int|
        0 <= i < t.sockets@.len() && (#[trigger] t.sockets@[i]) is Some ==> spec_sock_wf(
            t.sockets@[i]->0,
        )
}

/// The socket's retransmit entries fit the 16-bit segment length.
pub open spec fn spec_sock_wf(s: Socket) -> bool {
    s.tcb is Some ==> forall|k: int|
        0 <= k < s.tcb->0.rtx_queue@.len() ==> (#[trigger] s.tcb->0.rtx_queue@[k]).data@.len()
            <= 0xffff
}

impl SocketTable {
    /// An empty socket table.
    pub fn new() -> (r: SocketTable)
        ensures
            r.sockets@.len() == 0,
            spec_table_wf(r),
    {
        SocketTable { sockets: Vec::new() }
    }
}

/// The outcome of one send attempt.
#[derive(Clone, Debug)]
pub enum WriteOutcome {
    /// Bytes accepted and segmented; this many were taken.
    Wrote(usize),
    /// The window is full on a non-blocking socket.
    WouldBlock,
    /// The sticky error, consumed, as a positive errno.
    ErrPending(i32),
    /// The window is full: suspend on the TX wait queue and retry.
    Block,
}

/// One attempt to write `data`, exactly as the socket file operation
/// decides it: a pending error first, consumed; then the TCP send path,
/// with its built segments pushed to `out`; a full window yields
/// would-block on a non-blocking socket and a suspension on the TX wait
/// queue otherwise.
pub fn socket_write_step(
    sock: &mut Socket,
    data: &[u8],
    file_nonblock: bool,
    out: &mut Vec<Vec<u8>>,
) -> (r: WriteOutcome)
    requires
        old(sock).tcb is Some,
        old(sock).local is Some,
        old(sock).remote is Some,
        spec_sock_wf(*old(sock)),
    ensures
        spec_sock_wf(*final(sock)),
        old(sock).error != 0 ==> (r matches WriteOutcome::ErrPending(e) && e == old(sock).error)
            && *final(sock) == (Socket { error: 0, ..*old(sock) }) && *final(out) == *old(out),
        old(sock).error == 0 && old(sock).tcb->0.state != TcpState::Established ==> (r matches
            WriteOutcome::ErrPending(e) && e == 107) && *final(sock) == *old(sock) && *final(out)
            == *old(out),
        old(sock).error == 0 && old(sock).tcb->0.state == TcpState::Established
            && crate::tcp_output::spec_usable_window(old(sock).tcb->0) == 0 && data@.len() > 0
            ==> *final(sock) == *old(sock) && *final(out) == *old(out) && r == if file_nonblock
            || old(sock).nonblocking {
            WriteOutcome::WouldBlock
        } else {
            WriteOutcome::Block
        },
        old(sock).error == 0 && old(sock).tcb->0.state == TcpState::Established && (
        spec_usable_window(old(sock).tcb->0) > 0 || data@.len() == 0) ==> {
            let t = old(sock).tcb->0;
            let sent: int = if data@.len() <= spec_usable_window(t) {
                data@.len() as int
            } else {
                spec_usable_window(t)
            };
            let chunks = spec_chunks(data@.take(sent), t.snd_nxt);
            &&& (r matches WriteOutcome::Wrote(n) && n == sent)
            &&& final(sock).tcb is Some
            &&& final(sock).tcb->0.snd_nxt == spec_wrap_add(t.snd_nxt, sent as u32)
            &&& spec_rtx_model(final(sock).tcb->0.rtx_queue@) == spec_rtx_model(t.rtx_queue@)
                + chunks
            &&& final(sock).tcb->0.state == TcpState::Established
            &&& final(sock).tcb->0.snd_una == t.snd_una && final(sock).tcb->0.rcv_nxt == t.rcv_nxt
            &&& final(out)@.len() == old(out)@.len() + chunks.len()
            &&& (forall|k: int|
                0 <= k < chunks.len() ==> (#[trigger] final(out)@[old(out)@.len() + k])@
                    == spec_tcp_segment_bytes(
                    (old(sock).local->0).0,
                    (old(sock).remote->0).0,
                    (old(sock).local->0).1,
                    (old(sock).remote->0).1,
                    chunks[k].0,
                    t.rcv_nxt,
                    (TCP_ACK | TCP_PSH) as u8,
                    (t.rcv_wnd & 0xffff) as u16,
                    chunks[k].1,
                ))
        },
{
    if sock.error != 0 {
        let e = sock.take_error();
        return WriteOutcome::ErrPending(e);
    }
    match crate::tcp_output::tcp_sendmsg(sock, data, out) {
        Ok(n) => WriteOutcome::Wrote(n),
        Err(crate::NetError::WouldBlock) => {
            if file_nonblock || sock.is_nonblocking() {
                WriteOutcome::WouldBlock
            } else {
                WriteOutcome::Block
            }
        },
        Err(e) => WriteOutcome::ErrPending(e.to_errno()),
    }
}

/// File operations of a socket: the object the file layer dispatches to.
pub struct SocketFileOps {
    /// The socket the file refers to.
    pub socket: Socket,
}

impl SocketFileOps {
    /// Wrap a socket for the file layer.
    pub fn new(socket: Socket) -> (r: Self)
        ensures
            r.socket == socket,
    {
        SocketFileOps { socket }
    }

    /// The underlying socket.
    pub fn socket(&self) -> (r: &Socket)
        ensures
            r == &self.socket,
    {
        &self.socket
    }

    /// One read attempt through the file layer; the file's own
    /// non-blocking flag combines with the socket's. A pending error is
    /// consumed first; then queued bytes drain off the front; then end
    /// of stream reports `Eof`; otherwise would-block or a suspension on
    /// the RX wait queue.
    pub fn read(&mut self, buf_len: usize, file_nonblock: bool) -> (r: ReadOutcome)
        ensures
            old(self).socket.error != 0 ==> r == ReadOutcome::ErrPending(old(self).socket.error)
                && final(self).socket == (Socket { error: 0, ..old(self).socket }),
            old(self).socket.error == 0 && old(self).socket.rx_buf@.len() > 0 ==> {
                let n = if buf_len <= old(self).socket.rx_buf@.len() {
                    buf_len as int
                } else {
                    old(self).socket.rx_buf@.len() as int
                };
                &&& (r matches ReadOutcome::Data(d) && d@ == old(self).socket.rx_buf@.take(n))
                &&& final(self).socket.rx_buf@ == old(self).socket.rx_buf@.skip(n)
                &&& final(self).socket == (Socket {
                    rx_buf: final(self).socket.rx_buf,
                    ..old(self).socket
                })
            },
            old(self).socket.error == 0 && old(self).socket.rx_buf@.len() == 0
                ==> final(self).socket == old(self).socket && r == spec_empty_read_outcome(
                old(self).socket,
                file_nonblock,
            ),
    {
        socket_read_step(&mut self.socket, buf_len, file_nonblock)
    }

    /// One write attempt through the file layer: a pending error is
    /// consumed first; then the TCP send path accepts up to the usable
    /// window, pushing the built segments to `out`; a full window yields
    /// would-block or a suspension on the TX wait queue.
    pub fn write(&mut self, data: &[u8], file_nonblock: bool, out: &mut Vec<Vec<u8>>) -> (r:
        WriteOutcome)
        requires
            old(self).socket.tcb is Some,
            old(self).socket.local is Some,
            old(self).socket.remote is Some,
            spec_sock_wf(old(self).socket),
        ensures
            spec_sock_wf(final(self).socket),
            old(self).socket.error != 0 ==> (r matches WriteOutcome::ErrPending(e) && e == old(
                self,
            ).socket.error) && final(self).socket == (Socket { error: 0, ..old(self).socket })
                && *final(out) == *old(out),
            old(self).socket.error == 0 && old(self).socket.tcb->0.state != TcpState::Established
                ==> (r matches WriteOutcome::ErrPending(e) && e == 107) && final(self).socket
                == old(self).socket && *final(out) == *old(out),
            old(self).socket.error == 0 && old(self).socket.tcb->0.state == TcpState::Established
                && spec_usable_window(old(self).socket.tcb->0) == 0 && data@.len() > 0
                ==> final(self).socket == old(self).socket && *final(out) == *old(out) && r
                == if file_nonblock || old(self).socket.nonblocking {
                WriteOutcome::WouldBlock
            } else {
                WriteOutcome::Block
            },
            old(self).socket.error == 0 && old(self).socket.tcb->0.state == TcpState::Established
                && (spec_usable_window(old(self).socket.tcb->0) > 0 || data@.len() == 0) ==> {
                let t = old(self).socket.tcb->0;
                let sent: int = if data@.len() <= spec_usable_window(t) {
                    data@.len() as int
                } else {
                    spec_usable_window(t)
                };
                let chunks = spec_chunks(data@.take(sent), t.snd_nxt);
                &&& (r matches WriteOutcome::Wrote(n) && n == sent)
                &&& final(self).socket.tcb is Some
                &&& final(self).socket.tcb->0.snd_nxt == spec_wrap_add(t.snd_nxt, sent as u32)
                &&& spec_rtx_model(final(self).socket.tcb->0.rtx_queue@) == spec_rtx_model(
                    t.rtx_queue@,
                ) + chunks
                &&& final(self).socket.tcb->0.state == TcpState::Established
                &&& final(out)@.len() == old(out)@.len() + chunks.len()
                &&& (forall|k: int|
                    0 <= k < chunks.len() ==> (#[trigger] final(out)@[old(out)@.len() + k])@
                        == spec_tcp_segment_bytes(
                        (old(self).socket.local->0).0,
                        (old(self).socket.remote->0).0,
                        (old(self).socket.local->0).1,
                        (old(self).socket.remote->0).1,
                        chunks[k].0,
                        t.rcv_nxt,
                        (TCP_ACK | TCP_PSH) as u8,
                        (t.rcv_wnd & 0xffff) as u16,
                        chunks[k].1,
                    ))
            },
    {
        socket_write_step(&mut self.socket, data, file_nonblock, out)
    }

    /// The poll bitmask for the socket.
    pub fn poll(&self) -> (r: u16)
        ensures
            r == spec_poll_mask(self.socket),
    {
        socket_poll_mask(&self.socket)
    }

    /// Drop the last file reference: initiate the TCP close. From
    /// Established the connection moves to FinWait1 and from CloseWait
    /// to LastAck, returning the FIN to emit; from SynSent or Listen it
    /// drops to Closed with nothing to send; in any other state nothing
    /// changes.
    pub fn release(&mut self) -> (r: Option<Vec<u8>>)
        requires
            old(self).socket.tcb is Some,
            (old(self).socket.tcb->0.state == TcpState::Established || old(
                self,
            ).socket.tcb->0.state == TcpState::CloseWait) ==> old(self).socket.local is Some
                && old(self).socket.remote is Some,
        ensures
            final(self).socket.tcb is Some,
            ({
                let t = old(self).socket.tcb->0;
                if t.state == TcpState::Established || t.state == TcpState::CloseWait {
                    &&& final(self).socket == (Socket {
                        tcb: Some(
                            Tcb {
                                state: if t.state == TcpState::Established {
                                    TcpState::FinWait1
                                } else {
                                    TcpState::LastAck
                                },
                                snd_nxt: spec_wrap_add(t.snd_nxt, 1),
                                ..t
                            },
                        ),
                        ..old(self).socket
                    })
                    &&& r is Some
                    &&& r->Some_0@ == spec_tcp_segment_bytes(
                        (old(self).socket.local->0).0,
                        (old(self).socket.remote->0).0,
                        (old(self).socket.local->0).1,
                        (old(self).socket.remote->0).1,
                        t.snd_nxt,
                        t.rcv_nxt,
                        (crate::tcp::TCP_FIN | TCP_ACK) as u8,
                        (t.rcv_wnd & 0xffff) as u16,
                        Seq::<u8>::empty(),
                    )
                } else if t.state == TcpState::SynSent || t.state == TcpState::Listen {
                    &&& final(self).socket == (Socket {
                        tcb: Some(Tcb { state: TcpState::Closed, ..t }),
                        ..old(self).socket
                    })
                    &&& r is None
                } else {
                    final(self).socket == old(self).socket && r is None
                }
            }),
    {
        tcp_close(&mut self.socket)
    }
}

} // verus!
