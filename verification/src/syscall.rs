//! Socket system calls over the socket table.
//!
//! Calls take the socket table and plain values (descriptor numbers,
//! sockaddr bytes, payload bytes) and return POSIX errnos negated, as
//! the syscall ABI does. Copying between user memory and these values,
//! and suspending on wait queues, is the caller's side; segments that
//! must be emitted are pushed to an `out` vector for the IP layer.

use vstd::prelude::*;

use crate::ipv4::Ipv4Addr;
use crate::socket::{
    spec_empty_read_outcome,
    AddressFamily,
    ReadOutcome,
    SockAddrIn,
    Socket,
    SocketTable,
    SocketType,
    AF_INET,
    SOCKADDR_IN_LEN,
    SOCK_CLOEXEC,
    SOCK_NONBLOCK,
    SOCK_STREAM,
    sockaddr_in_decode,
    sockaddr_in_encode,
    socket_read_step,
    spec_sockaddr_decode,
    spec_sockaddr_encode,
    spec_table_wf,
    spec_sock_wf,
};
use crate::tcp::{TcpState, Tcb};
use crate::tcp_output::{tcp_close, tcp_connect};

verus! {

/// EINVAL, negated.
pub const ENEG_INVAL: i64 = -22;

/// EBADF, negated.
pub const ENEG_BADF: i64 = -9;

/// EAFNOSUPPORT, negated.
pub const ENEG_AFNOSUPPORT: i64 = -97;

/// ESOCKTNOSUPPORT, negated.
pub const ENEG_SOCKTNOSUPPORT: i64 = -94;

/// EPROTONOSUPPORT, negated.
pub const ENEG_PROTONOSUPPORT: i64 = -93;

/// EOPNOTSUPP, negated.
pub const ENEG_OPNOTSUPP: i64 = -95;

/// ENOTCONN, negated.
pub const ENEG_NOTCONN: i64 = -107;

/// EISCONN, negated.
pub const ENEG_ISCONN: i64 = -106;

/// EINPROGRESS, negated.
pub const ENEG_INPROGRESS: i64 = -115;

/// EALREADY, negated.
pub const ENEG_ALREADY: i64 = -114;

/// EAGAIN, negated.
pub const ENEG_AGAIN: i64 = -11;

/// Whether a descriptor selects a live socket slot.
pub open spec fn spec_fd_ok(t: SocketTable, fd: i32) -> bool {
    0 <= fd < t.sockets@.len() && t.sockets@[fd as int] is Some
}

/// Resolve a descriptor to its index in the socket table. Fails with
/// EBADF exactly when the descriptor is negative, out of range or
/// closed.
pub fn get_socket(table: &SocketTable, fd: i32) -> (r: Result<usize, i64>)
    ensures
        r is Ok <==> spec_fd_ok(*table, fd),
        r is Ok ==> r->Ok_0 == fd,
        r is Err ==> r->Err_0 == ENEG_BADF,
{
    if fd < 0 {
        return Err(ENEG_BADF);
    }
    let idx = fd as usize;
    if idx >= table.sockets.len() {
        return Err(ENEG_BADF);
    }
    match &table.sockets[idx] {
        Some(_) => Ok(idx),
        None => Err(ENEG_BADF),
    }
}

/// Create a socket. Only AF_INET stream sockets over protocol 0 or 6
/// are supported; the type may carry the NONBLOCK and CLOEXEC flags.
/// Returns the new descriptor: the slot index in the table.
pub fn sys_socket(table: &mut SocketTable, domain: i32, sock_type: i32, protocol: i32) -> (r: i64)
    requires
        old(table).sockets@.len() < 0x7fffffff,
        spec_table_wf(*old(table)),
    ensures
        spec_table_wf(*final(table)),
        domain != AF_INET ==> r == ENEG_AFNOSUPPORT && *final(table) == *old(table),
        domain == AF_INET && (sock_type & 0xff) != SOCK_STREAM ==> r == ENEG_SOCKTNOSUPPORT
            && *final(table) == *old(table),
        domain == AF_INET && (sock_type & 0xff) == SOCK_STREAM && protocol != 0 && protocol != 6
            ==> r == ENEG_PROTONOSUPPORT && *final(table) == *old(table),
        domain == AF_INET && (sock_type & 0xff) == SOCK_STREAM && (protocol == 0 || protocol == 6)
            ==> {
            &&& r == old(table).sockets@.len()
            &&& final(table).sockets@.len() == old(table).sockets@.len() + 1
            &&& final(table).sockets@.subrange(0, old(table).sockets@.len() as int) == old(
                table,
            ).sockets@
            &&& final(table).sockets@.last() is Some
            &&& final(table).sockets@.last()->0.family == AddressFamily::Inet
            &&& final(table).sockets@.last()->0.stype == SocketType::Stream
            &&& final(table).sockets@.last()->0.protocol == protocol
            &&& final(table).sockets@.last()->0.tcb is Some
            &&& final(table).sockets@.last()->0.tcb->0.state == TcpState::Closed
            &&& final(table).sockets@.last()->0.nonblocking == ((sock_type & SOCK_NONBLOCK) != 0)
        },
{
    let family = match AddressFamily::from_i32(domain) {
        Some(f) => f,
        None => {
            return ENEG_AFNOSUPPORT;
        },
    };
    let type_only: i32 = sock_type & 0xff;
    let nonblock: bool = sock_type & SOCK_NONBLOCK != 0;
    let _cloexec: bool = sock_type & SOCK_CLOEXEC != 0;
    let stype = match SocketType::from_i32(type_only) {
        Some(SocketType::Stream) => SocketType::Stream,
        Some(SocketType::Dgram) => {
            return ENEG_SOCKTNOSUPPORT;
        },
        Some(SocketType::Raw) => {
            return ENEG_SOCKTNOSUPPORT;
        },
        None => {
            return ENEG_SOCKTNOSUPPORT;
        },
    };
    if protocol != 0 && protocol != 6 {
        return ENEG_PROTONOSUPPORT;
    }
    let mut sock = Socket::new(family, stype, protocol);
    if nonblock {
        sock.set_nonblocking(true);
    }
    let fd = table.sockets.len();
    table.sockets.push(Some(sock));
    proof {
        assert(final(table).sockets@.subrange(0, old(table).sockets@.len() as int) =~= old(
            table,
        ).sockets@);
        assert forall|i: int|
            0 <= i < table.sockets@.len() && (#[trigger] table.sockets@[i]) is Some implies
            spec_sock_wf(table.sockets@[i]->0) by {
            if i < old(table).sockets@.len() {
                assert(table.sockets@[i] == old(table).sockets@[i]);
            }
        }
    }
    fd as i64
}

/// Bind a socket to a local address. The sockaddr bytes must hold a
/// full sockaddr_in of the AF_INET family.
pub fn sys_bind(table: &mut SocketTable, fd: i32, addr: &[u8]) -> (r: i64)
    requires
        spec_table_wf(*old(table)),
    ensures
        spec_table_wf(*final(table)),
        addr@.len() < SOCKADDR_IN_LEN ==> r == ENEG_INVAL && *final(table) == *old(table),
        addr@.len() >= SOCKADDR_IN_LEN && !spec_fd_ok(*old(table), fd) ==> r == ENEG_BADF
            && *final(table) == *old(table),
        addr@.len() >= SOCKADDR_IN_LEN && spec_fd_ok(*old(table), fd) && spec_sockaddr_decode(
            addr@,
        ).sin_family != AF_INET ==> r == ENEG_AFNOSUPPORT && *final(table) == *old(table),
        addr@.len() >= SOCKADDR_IN_LEN && spec_fd_ok(*old(table), fd) && spec_sockaddr_decode(
            addr@,
        ).sin_family == AF_INET ==> {
            let sa = spec_sockaddr_decode(addr@);
            &&& r == 0
            &&& final(table).sockets@.len() == old(table).sockets@.len()
            &&& final(table).sockets@[fd as int] == Some(
                Socket {
                    local: Some((sa.sin_addr, sa.sin_port)),
                    ..old(table).sockets@[fd as int]->0
                },
            )
            &&& (forall|j: int|
                0 <= j < old(table).sockets@.len() && j != fd ==> final(table).sockets@[j] == old(
                    table,
                ).sockets@[j])
        },
{
    let sa = match sockaddr_in_decode(addr) {
        Some(sa) => sa,
        None => {
            return ENEG_INVAL;
        },
    };
    let idx = match get_socket(table, fd) {
        Ok(i) => i,
        Err(e) => {
            return e;
        },
    };
    if sa.sin_family as i32 != AF_INET {
        return ENEG_AFNOSUPPORT;
    }
    let slot = &mut table.sockets[idx];
    match slot {
        Some(s) => {
            s.set_local(sa.sin_addr, sa.sin_port);
        },
        None => {
            proof {
                assert(false);
            }
        },
    }
    0
}

/// Initiate a TCP connection. An already-established socket fails with
/// EISCONN; a non-blocking socket with a handshake in flight fails with
/// EALREADY. Otherwise the socket is bound to the wildcard address and
/// `local_port` when not yet bound, takes `iss` as its initial sequence
/// number, emits a SYN into `out` and returns EINPROGRESS; the caller
/// drives completion with `connect_poll` (waiting on the connect queue
/// when blocking).
pub fn sys_connect(
    table: &mut SocketTable,
    fd: i32,
    addr: &[u8],
    iss: u32,
    local_port: u16,
    out: &mut Vec<Vec<u8>>,
) -> (r: i64)
    requires
        spec_table_wf(*old(table)),
    ensures
        spec_table_wf(*final(table)),
        addr@.len() < SOCKADDR_IN_LEN ==> r == ENEG_INVAL && *final(table) == *old(table)
            && *final(out) == *old(out),
        addr@.len() >= SOCKADDR_IN_LEN && !spec_fd_ok(*old(table), fd) ==> r == ENEG_BADF
            && *final(table) == *old(table) && *final(out) == *old(out),
        addr@.len() >= SOCKADDR_IN_LEN && spec_fd_ok(*old(table), fd) && spec_sockaddr_decode(
            addr@,
        ).sin_family != AF_INET ==> r == ENEG_AFNOSUPPORT && *final(table) == *old(table)
            && *final(out) == *old(out),
        addr@.len() >= SOCKADDR_IN_LEN && spec_fd_ok(*old(table), fd) && spec_sockaddr_decode(
            addr@,
        ).sin_family == AF_INET ==> {
            let s = old(table).sockets@[fd as int]->0;
            if s.tcb is Some && s.tcb->0.state == TcpState::Established {
                r == ENEG_ISCONN && *final(table) == *old(table) && *final(out) == *old(out)
            } else if s.tcb is Some && (s.tcb->0.state == TcpState::SynSent || s.tcb->0.state
                == TcpState::SynReceived) && s.nonblocking {
                r == ENEG_ALREADY && *final(table) == *old(table) && *final(out) == *old(out)
            } else if s.tcb is Some {
                let sa = spec_sockaddr_decode(addr@);
                let lp = if s.local is Some {
                    s.local->0
                } else {
                    (Ipv4Addr { bits: 0 }, local_port)
                };
                &&& r == ENEG_INPROGRESS
                &&& final(table).sockets@.len() == old(table).sockets@.len()
                &&& final(table).sockets@[fd as int] is Some
                &&& final(table).sockets@[fd as int]->0.tcb is Some
                &&& final(table).sockets@[fd as int]->0.tcb->0.state == TcpState::SynSent
                &&& final(table).sockets@[fd as int]->0.tcb->0.iss == iss
                &&& final(table).sockets@[fd as int]->0.tcb->0.snd_nxt == crate::tcp::spec_wrap_add(
                    iss,
                    1,
                )
                &&& final(table).sockets@[fd as int]->0.remote == Some(
                    (sa.sin_addr, sa.sin_port),
                )
                &&& final(table).sockets@[fd as int]->0.local == Some(lp)
                &&& final(out)@.len() == old(out)@.len() + 1
                &&& (final(out)@[old(out)@.len() as int])@
                    == crate::tcp_output::spec_tcp_segment_bytes(
                    lp.0,
                    sa.sin_addr,
                    lp.1,
                    sa.sin_port,
                    iss,
                    0,
                    crate::tcp::TCP_SYN,
                    crate::tcp_output::TCP_DEFAULT_WINDOW,
                    Seq::<u8>::empty(),
                )
                &&& (forall|j: int|
                    0 <= j < old(table).sockets@.len() && j != fd
                        ==> final(table).sockets@[j] == old(table).sockets@[j])
            } else {
                r == ENEG_OPNOTSUPP && *final(table) == *old(table) && *final(out) == *old(out)
            }
        },
{
    let sa = match sockaddr_in_decode(addr) {
        Some(sa) => sa,
        None => {
            return ENEG_INVAL;
        },
    };
    let idx = match get_socket(table, fd) {
        Ok(i) => i,
        Err(e) => {
            return e;
        },
    };
    if sa.sin_family as i32 != AF_INET {
        return ENEG_AFNOSUPPORT;
    }
    let (state, nonblocking) = match &table.sockets[idx] {
        Some(s) => (
            match &s.tcb {
                Some(t) => Some(t.state),
                None => None,
            },
            s.is_nonblocking(),
        ),
        None => (None, false),
    };
    match state {
        Some(TcpState::Established) => {
            return ENEG_ISCONN;
        },
        Some(TcpState::SynSent) | Some(TcpState::SynReceived) => {
            if nonblocking {
                return ENEG_ALREADY;
            }
        },
        Some(_) => {},
        None => {
            return ENEG_OPNOTSUPP;
        },
    }
    let slot = &mut table.sockets[idx];
    match slot {
        Some(s) => {
            if s.local.is_none() {
                s.set_local(Ipv4Addr::from_u32(0), local_port);
            }
            let syn = tcp_connect(s, sa.sin_addr, sa.sin_port, iss);
            out.push(syn);
            ENEG_INPROGRESS
        },
        None => {
            proof {
                assert(false);
            }
            ENEG_BADF
        },
    }
}

/// Poll a connect in progress: `None` while the handshake is running,
/// `Some(0)` once established, and on a closed connection the pending
/// error (negated, consumed) or ENOTCONN.
pub fn connect_poll(table: &mut SocketTable, fd: i32) -> (r: Option<i64>)
    requires
        spec_table_wf(*old(table)),
    ensures
        spec_table_wf(*final(table)),
        !spec_fd_ok(*old(table), fd) ==> r == Some(ENEG_BADF) && *final(table) == *old(table),
        spec_fd_ok(*old(table), fd) ==> {
            let s = old(table).sockets@[fd as int]->0;
            if s.tcb is Some && s.tcb->0.state == TcpState::Established {
                &&& r == Some(0int as i64)
                &&& final(table).sockets@.len() == old(table).sockets@.len()
                &&& final(table).sockets@[fd as int] == old(table).sockets@[fd as int]
                &&& (forall|j: int|
                    0 <= j < old(table).sockets@.len() && j != fd ==> final(table).sockets@[j]
                        == old(table).sockets@[j])
            } else if s.tcb is Some && s.tcb->0.state == TcpState::Closed {
                if s.error != 0 {
                    &&& r == Some((0 - s.error) as i64)
                    &&& final(table).sockets@.len() == old(table).sockets@.len()
                    &&& final(table).sockets@[fd as int] == Some(Socket { error: 0, ..s })
                    &&& (forall|j: int|
                        0 <= j < old(table).sockets@.len() && j != fd
                            ==> final(table).sockets@[j] == old(table).sockets@[j])
                } else {
                    &&& r == Some(ENEG_NOTCONN)
                    &&& final(table).sockets@.len() == old(table).sockets@.len()
                    &&& final(table).sockets@[fd as int] == Some(Socket { error: 0, ..s })
                    &&& (forall|j: int|
                        0 <= j < old(table).sockets@.len() && j != fd
                            ==> final(table).sockets@[j] == old(table).sockets@[j])
                }
            } else {
                &&& r is None
                &&& final(table).sockets@.len() == old(table).sockets@.len()
                &&& final(table).sockets@[fd as int] == old(table).sockets@[fd as int]
                &&& (forall|j: int|
                    0 <= j < old(table).sockets@.len() && j != fd ==> final(table).sockets@[j]
                        == old(table).sockets@[j])
            }
        },
{
    let idx = match get_socket(table, fd) {
        Ok(i) => i,
        Err(_) => {
            return Some(ENEG_BADF);
        },
    };
    let slot = &mut table.sockets[idx];
    match slot {
        Some(s) => {
            let state = match &s.tcb {
                Some(t) => Some(t.state),
                None => None,
            };
            match state {
                Some(TcpState::Established) => Some(0),
                Some(TcpState::Closed) => {
                    let e = s.take_error();
                    if e != 0 {
                        Some(-(e as i64))
                    } else {
                        Some(ENEG_NOTCONN)
                    }
                },
                _ => None,
            }
        },
        None => {
            proof {
                assert(false);
            }
            Some(ENEG_BADF)
        },
    }
}

/// Move a TCP socket to the Listen state. Fails with EOPNOTSUPP on a
/// socket without a control block.
pub fn sys_listen(table: &mut SocketTable, fd: i32, _backlog: i32) -> (r: i64)
    requires
        spec_table_wf(*old(table)),
    ensures
        spec_table_wf(*final(table)),
        !spec_fd_ok(*old(table), fd) ==> r == ENEG_BADF && *final(table) == *old(table),
        spec_fd_ok(*old(table), fd) ==> {
            let s = old(table).sockets@[fd as int]->0;
            if s.tcb is Some {
                &&& r == 0
                &&& final(table).sockets@.len() == old(table).sockets@.len()
                &&& final(table).sockets@[fd as int] == Some(
                    Socket { tcb: Some(Tcb { state: TcpState::Listen, ..s.tcb->0 }), ..s },
                )
                &&& (forall|j: int|
                    0 <= j < old(table).sockets@.len() && j != fd ==> final(table).sockets@[j]
                        == old(table).sockets@[j])
            } else {
                &&& r == ENEG_OPNOTSUPP
                &&& final(table).sockets@.len() == old(table).sockets@.len()
                &&& final(table).sockets@[fd as int] == old(table).sockets@[fd as int]
                &&& (forall|j: int|
                    0 <= j < old(table).sockets@.len() && j != fd ==> final(table).sockets@[j]
                        == old(table).sockets@[j])
            }
        },
{
    let idx = match get_socket(table, fd) {
        Ok(i) => i,
        Err(e) => {
            return e;
        },
    };
    let slot = &mut table.sockets[idx];
    match slot {
        Some(s) => {
            match s.tcb.take() {
                Some(mut t) => {
                    t.state = TcpState::Listen;
                    s.tcb = Some(t);
                    0
                },
                None => ENEG_OPNOTSUPP,
            }
        },
        None => {
            proof {
                assert(false);
            }
            ENEG_BADF
        },
    }
}

/// Accept is not implemented: the accept queue is out of scope.
pub fn sys_accept(table: &SocketTable, fd: i32) -> (r: i64)
    ensures
        !spec_fd_ok(*table, fd) ==> r == ENEG_BADF,
        spec_fd_ok(*table, fd) ==> r == ENEG_OPNOTSUPP,
{
    match get_socket(table, fd) {
        Ok(_) => ENEG_OPNOTSUPP,
        Err(e) => e,
    }
}

/// Accept with flags: same as `sys_accept`.
pub fn sys_accept4(table: &SocketTable, fd: i32, _flags: i32) -> (r: i64)
    ensures
        !spec_fd_ok(*table, fd) ==> r == ENEG_BADF,
        spec_fd_ok(*table, fd) ==> r == ENEG_OPNOTSUPP,
{
    sys_accept(table, fd)
}

/// Shut down a socket. `how` 0 marks end of stream for readers; 1
/// initiates the TCP close, pushing a FIN into `out` when one is owed;
/// 2 does both. Any other value fails with EINVAL. After an end-of-
/// stream mark the caller wakes the readers, per the suspension model.
pub fn sys_shutdown(table: &mut SocketTable, fd: i32, how: i32, out: &mut Vec<Vec<u8>>) -> (r: i64)
    requires
        spec_table_wf(*old(table)),
    ensures
        spec_table_wf(*final(table)),
        !spec_fd_ok(*old(table), fd) ==> r == ENEG_BADF && *final(table) == *old(table)
            && *final(out) == *old(out),
        spec_fd_ok(*old(table), fd) && !(how == 0 || how == 1 || how == 2) ==> r == ENEG_INVAL
            && *final(table) == *old(table) && *final(out) == *old(out),
        spec_fd_ok(*old(table), fd) && how == 0 ==> {
            let s = old(table).sockets@[fd as int]->0;
            &&& r == 0
            &&& final(table).sockets@.len() == old(table).sockets@.len()
            &&& final(table).sockets@[fd as int] == Some(Socket { eof: true, ..s })
            &&& (forall|j: int|
                0 <= j < old(table).sockets@.len() && j != fd ==> final(table).sockets@[j] == old(
                    table,
                ).sockets@[j])
            &&& *final(out) == *old(out)
        },
        spec_fd_ok(*old(table), fd) && (how == 1 || how == 2) ==> {
            let s = old(table).sockets@[fd as int]->0;
            &&& r == 0
            &&& final(table).sockets@.len() == old(table).sockets@.len()
            &&& (forall|j: int|
                0 <= j < old(table).sockets@.len() && j != fd ==> final(table).sockets@[j] == old(
                    table,
                ).sockets@[j])
            &&& final(table).sockets@[fd as int] is Some
            &&& ({
                let n = final(table).sockets@[fd as int]->0;
                &&& (how == 2 ==> n.eof)
                &&& (how == 1 ==> n.eof == s.eof)
                &&& (s.tcb is Some && s.local is Some && s.remote is Some ==> {
                    let t = s.tcb->0;
                    &&& (t.state == TcpState::Established ==> n.tcb is Some && n.tcb->0.state
                        == TcpState::FinWait1)
                    &&& (t.state == TcpState::CloseWait ==> n.tcb is Some && n.tcb->0.state
                        == TcpState::LastAck)
                    &&& (t.state == TcpState::Established || t.state == TcpState::CloseWait ==> {
                        &&& n.tcb->0.snd_nxt == crate::tcp::spec_wrap_add(t.snd_nxt, 1)
                        &&& final(out)@.len() == old(out)@.len() + 1
                        &&& (final(out)@[old(out)@.len() as int])@
                            == crate::tcp_output::spec_tcp_segment_bytes(
                            (s.local->0).0,
                            (s.remote->0).0,
                            (s.local->0).1,
                            (s.remote->0).1,
                            t.snd_nxt,
                            t.rcv_nxt,
                            (crate::tcp::TCP_FIN | crate::tcp::TCP_ACK) as u8,
                            (t.rcv_wnd & 0xffff) as u16,
                            Seq::<u8>::empty(),
                        )
                    })
                })
                &&& (s.tcb is Some && (s.tcb->0.state == TcpState::SynSent || s.tcb->0.state
                    == TcpState::Listen) ==> n.tcb is Some && n.tcb->0.state == TcpState::Closed
                    && *final(out) == *old(out))
                &&& (s.tcb is Some && !(s.tcb->0.state == TcpState::Established || s.tcb->0.state
                    == TcpState::CloseWait || s.tcb->0.state == TcpState::SynSent
                    || s.tcb->0.state == TcpState::Listen) ==> n == (Socket {
                    eof: s.eof || how == 2,
                    ..s
                }) && *final(out) == *old(out))
            })
        },
{
    let idx = match get_socket(table, fd) {
        Ok(i) => i,
        Err(e) => {
            return e;
        },
    };
    if how != 0 && how != 1 && how != 2 {
        return ENEG_INVAL;
    }
    let slot = &mut table.sockets[idx];
    match slot {
        Some(s) => {
            if how == 0 {
                s.set_eof();
                return 0;
            }
            let closable = match &s.tcb {
                Some(t) => !((t.state == TcpState::Established || t.state == TcpState::CloseWait)
                    && !(s.local.is_some() && s.remote.is_some())),
                None => true,
            };
            if s.tcb.is_some() && closable {
                match tcp_close(s) {
                    Some(fin) => {
                        out.push(fin);
                    },
                    None => {},
                }
            }
            if how == 2 {
                s.set_eof();
            }
            0
        },
        None => {
            proof {
                assert(false);
            }
            ENEG_BADF
        },
    }
}

/// The bound local address of a socket, as encoded sockaddr_in bytes;
/// the wildcard address when unbound.
pub fn sys_getsockname(table: &SocketTable, fd: i32) -> (r: Result<Vec<u8>, i64>)
    ensures
        r is Ok <==> spec_fd_ok(*table, fd),
        r is Err ==> r->Err_0 == ENEG_BADF,
        r is Ok ==> {
            let s = table.sockets@[fd as int]->0;
            r->Ok_0@ == spec_sockaddr_encode(
                SockAddrIn {
                    sin_family: AF_INET as u16,
                    sin_port: if s.local is Some {
                        (s.local->0).1
                    } else {
                        0u16
                    },
                    sin_addr: if s.local is Some {
                        (s.local->0).0
                    } else {
                        Ipv4Addr { bits: 0 }
                    },
                },
            )
        },
{
    let idx = match get_socket(table, fd) {
        Ok(i) => i,
        Err(e) => {
            return Err(e);
        },
    };
    match &table.sockets[idx] {
        Some(s) => {
            let (addr, port) = match s.local {
                Some(lp) => lp,
                None => (Ipv4Addr::from_u32(0), 0),
            };
            let sa = SockAddrIn { sin_family: AF_INET as u16, sin_port: port, sin_addr: addr };
            Ok(sockaddr_in_encode(&sa))
        },
        None => {
            proof {
                assert(false);
            }
            Err(ENEG_BADF)
        },
    }
}

/// The connected remote address of a socket, as encoded sockaddr_in
/// bytes. Fails with ENOTCONN when the socket has no peer.
pub fn sys_getpeername(table: &SocketTable, fd: i32) -> (r: Result<Vec<u8>, i64>)
    ensures
        !spec_fd_ok(*table, fd) ==> r == Err::<Vec<u8>, i64>(ENEG_BADF),
        spec_fd_ok(*table, fd) ==> {
            let s = table.sockets@[fd as int]->0;
            if s.remote is Some {
                r is Ok && r->Ok_0@ == spec_sockaddr_encode(
                    SockAddrIn {
                        sin_family: AF_INET as u16,
                        sin_port: (s.remote->0).1,
                        sin_addr: (s.remote->0).0,
                    },
                )
            } else {
                r == Err::<Vec<u8>, i64>(ENEG_NOTCONN)
            }
        },
{
    let idx = match get_socket(table, fd) {
        Ok(i) => i,
        Err(e) => {
            return Err(e);
        },
    };
    match &table.sockets[idx] {
        Some(s) => {
            let (addr, port) = match s.remote {
                Some(rp) => rp,
                None => {
                    return Err(ENEG_NOTCONN);
                },
            };
            let sa = SockAddrIn { sin_family: AF_INET as u16, sin_port: port, sin_addr: addr };
            Ok(sockaddr_in_encode(&sa))
        },
        None => {
            proof {
                assert(false);
            }
            Err(ENEG_BADF)
        },
    }
}

/// Set a socket option: accepted and ignored on any live socket.
pub fn sys_setsockopt(table: &SocketTable, fd: i32, _level: i32, _optname: i32) -> (r: i64)
    ensures
        r == if spec_fd_ok(*table, fd) {
            0int as i64
        } else {
            ENEG_BADF
        },
{
    match get_socket(table, fd) {
        Ok(_) => 0,
        Err(e) => e,
    }
}

/// Read a socket option. SOL_SOCKET (1) SO_ERROR (4) returns and clears
/// the pending error (as a positive errno); every other option reads 0.
pub fn sys_getsockopt(table: &mut SocketTable, fd: i32, level: i32, optname: i32) -> (r: Result<
    i32,
    i64,
>)
    requires
        spec_table_wf(*old(table)),
    ensures
        spec_table_wf(*final(table)),
        r is Ok <==> spec_fd_ok(*old(table), fd),
        r is Err ==> r->Err_0 == ENEG_BADF && *final(table) == *old(table),
        spec_fd_ok(*old(table), fd) && level == 1 && optname == 4 ==> {
            let s = old(table).sockets@[fd as int]->0;
            &&& r == Ok::<i32, i64>(s.error)
            &&& final(table).sockets@.len() == old(table).sockets@.len()
            &&& final(table).sockets@[fd as int] == Some(Socket { error: 0, ..s })
            &&& (forall|j: int|
                0 <= j < old(table).sockets@.len() && j != fd ==> final(table).sockets@[j] == old(
                    table,
                ).sockets@[j])
        },
        spec_fd_ok(*old(table), fd) && !(level == 1 && optname == 4) ==> r == Ok::<i32, i64>(0)
            && *final(table) == *old(table),
{
    let idx = match get_socket(table, fd) {
        Ok(i) => i,
        Err(e) => {
            return Err(e);
        },
    };
    if level == 1 && optname == 4 {
        let slot = &mut table.sockets[idx];
        match slot {
            Some(s) => {
                let e = s.take_error();
                Ok(e)
            },
            None => {
                proof {
                    assert(false);
                }
                Err(ENEG_BADF)
            },
        }
    } else {
        Ok(0)
    }
}

/// Receive bytes: drain up to `buf_len` bytes from the receive queue.
/// An empty queue yields 0 bytes at end of stream, EAGAIN when the
/// socket (or call) is non-blocking, and EAGAIN with `would_block` set
/// when the caller should suspend on the RX wait queue and retry.
pub fn sys_recvfrom(table: &mut SocketTable, fd: i32, buf_len: usize) -> (r: Result<Vec<u8>, i64>)
    requires
        spec_table_wf(*old(table)),
    ensures
        spec_table_wf(*final(table)),
        !spec_fd_ok(*old(table), fd) ==> r == Err::<Vec<u8>, i64>(ENEG_BADF) && *final(table)
            == *old(table),
        spec_fd_ok(*old(table), fd) ==> {
            let s = old(table).sockets@[fd as int]->0;
            &&& final(table).sockets@.len() == old(table).sockets@.len()
            &&& (forall|j: int|
                0 <= j < old(table).sockets@.len() && j != fd
                    ==> final(table).sockets@[j] == old(table).sockets@[j])
            &&& (s.error != 0 ==> r == Err::<Vec<u8>, i64>((0 - s.error) as i64)
                && final(table).sockets@[fd as int] == Some(Socket { error: 0, ..s }))
            &&& (s.error == 0 && s.rx_buf@.len() > 0 ==> {
                let n = if buf_len <= s.rx_buf@.len() {
                    buf_len as int
                } else {
                    s.rx_buf@.len() as int
                };
                &&& r is Ok
                &&& r->Ok_0@ == s.rx_buf@.take(n)
                &&& final(table).sockets@[fd as int] is Some
                &&& final(table).sockets@[fd as int]->0.rx_buf@ == s.rx_buf@.skip(n)
            })
            &&& (s.error == 0 && s.rx_buf@.len() == 0 ==> final(table).sockets@[fd as int]
                == Some(s) && (match spec_empty_read_outcome(s, false) {
                ReadOutcome::Eof => r is Ok && r->Ok_0@.len() == 0,
                _ => r == Err::<Vec<u8>, i64>(ENEG_AGAIN),
            }))
        },
{
    let idx = match get_socket(table, fd) {
        Ok(i) => i,
        Err(e) => {
            return Err(e);
        },
    };
    let slot = &mut table.sockets[idx];
    match slot {
        Some(s) => {
            match socket_read_step(s, buf_len, false) {
                ReadOutcome::Data(d) => Ok(d),
                ReadOutcome::Eof => Ok(Vec::new()),
                ReadOutcome::WouldBlock => Err(ENEG_AGAIN),
                ReadOutcome::ErrPending(e) => Err(-(e as i64)),
                ReadOutcome::Block => Err(ENEG_AGAIN),
            }
        },
        None => {
            proof {
                assert(false);
            }
            Err(ENEG_BADF)
        },
    }
}

/// Send bytes: delegate to the TCP send path, pushing the built
/// segments into `out`; a `NetError` comes back negated.
pub fn sys_sendto(table: &mut SocketTable, fd: i32, data: &[u8], out: &mut Vec<Vec<u8>>) -> (r:
    i64)
    requires
        spec_table_wf(*old(table)),
    ensures
        spec_table_wf(*final(table)),
        !spec_fd_ok(*old(table), fd) ==> r == ENEG_BADF && *final(table) == *old(table)
            && *final(out) == *old(out),
        spec_fd_ok(*old(table), fd) ==> {
            let s = old(table).sockets@[fd as int]->0;
            &&& final(table).sockets@.len() == old(table).sockets@.len()
            &&& (forall|j: int|
                0 <= j < old(table).sockets@.len() && j != fd
                    ==> final(table).sockets@[j] == old(table).sockets@[j])
            &&& (s.tcb is None ==> r == ENEG_OPNOTSUPP && *final(table) == *old(table)
                && *final(out) == *old(out))
            &&& (s.tcb is Some && !(s.local is Some && s.remote is Some) ==> r == ENEG_NOTCONN
                && *final(table) == *old(table) && *final(out) == *old(out))
            &&& (s.tcb is Some && s.local is Some && s.remote is Some && s.tcb->0.state
                != TcpState::Established ==> r == ENEG_NOTCONN && *final(out) == *old(out))
            &&& (s.tcb is Some && s.local is Some && s.remote is Some && s.tcb->0.state
                == TcpState::Established && (crate::tcp_output::spec_usable_window(s.tcb->0) > 0
                || data@.len() == 0) ==> {
                let t = s.tcb->0;
                let sent: int = if data@.len() <= crate::tcp_output::spec_usable_window(t) {
                    data@.len() as int
                } else {
                    crate::tcp_output::spec_usable_window(t)
                };
                let chunks = crate::tcp_output::spec_chunks(data@.take(sent), t.snd_nxt);
                &&& r == sent
                &&& final(table).sockets@[fd as int] is Some
                &&& final(table).sockets@[fd as int]->0.tcb is Some
                &&& final(table).sockets@[fd as int]->0.tcb->0.snd_nxt
                    == crate::tcp::spec_wrap_add(t.snd_nxt, sent as u32)
                &&& crate::tcp::spec_rtx_model(
                    final(table).sockets@[fd as int]->0.tcb->0.rtx_queue@,
                ) == crate::tcp::spec_rtx_model(t.rtx_queue@) + chunks
                &&& final(table).sockets@[fd as int]->0.tcb->0.state == TcpState::Established
                &&& final(out)@.len() == old(out)@.len() + chunks.len()
                &&& (forall|k: int|
                    0 <= k < chunks.len() ==> (#[trigger] final(out)@[old(out)@.len() + k])@
                        == crate::tcp_output::spec_tcp_segment_bytes(
                        (s.local->0).0,
                        (s.remote->0).0,
                        (s.local->0).1,
                        (s.remote->0).1,
                        chunks[k].0,
                        t.rcv_nxt,
                        (crate::tcp::TCP_ACK | crate::tcp::TCP_PSH) as u8,
                        (t.rcv_wnd & 0xffff) as u16,
                        chunks[k].1,
                    ))
            })
            &&& (s.tcb is Some && s.local is Some && s.remote is Some && s.tcb->0.state
                == TcpState::Established && crate::tcp_output::spec_usable_window(s.tcb->0) == 0
                && data@.len() > 0 ==> r == ENEG_AGAIN && *final(out) == *old(out))
        },
{
    let idx = match get_socket(table, fd) {
        Ok(i) => i,
        Err(e) => {
            return e;
        },
    };
    let addressed = match &table.sockets[idx] {
        Some(s) => {
            if s.tcb.is_none() {
                return ENEG_OPNOTSUPP;
            }
            s.local.is_some() && s.remote.is_some()
        },
        None => false,
    };
    if !addressed {
        return ENEG_NOTCONN;
    }
    let slot = &mut table.sockets[idx];
    match slot {
        Some(s) => {
            match crate::tcp_output::tcp_sendmsg(s, data, out) {
                Ok(n) => n as i64,
                Err(e) => -(e.to_errno() as i64),
            }
        },
        None => {
            proof {
                assert(false);
            }
            ENEG_BADF
        },
    }
}

} // verus!
