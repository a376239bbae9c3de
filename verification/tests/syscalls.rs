use kcore::ipv4::Ipv4Addr;
use kcore::skb::SkBuff;
use kcore::socket::{sockaddr_in_decode, sockaddr_in_encode, SockAddrIn, SocketTable};
use kcore::syscall::{
    connect_poll, get_socket, sys_accept, sys_accept4, sys_bind, sys_connect, sys_getpeername,
    sys_getsockname, sys_getsockopt, sys_listen, sys_recvfrom, sys_sendto, sys_setsockopt,
    sys_shutdown, sys_socket,
};
use kcore::tcp::{tcp_hdr_parse, TcpState, TCP_ACK, TCP_SYN};
use kcore::tcp_input::tcp_rcv;
use kcore::tcp_output::build_tcp_segment;

const AF_INET: i32 = 2;
const SOCK_STREAM: i32 = 1;

fn addr_bytes(a: Ipv4Addr, port: u16) -> Vec<u8> {
    sockaddr_in_encode(&SockAddrIn { sin_family: AF_INET as u16, sin_port: port, sin_addr: a })
}

#[test]
fn sockaddr_roundtrip() {
    let sa = SockAddrIn {
        sin_family: AF_INET as u16,
        sin_port: 8080,
        sin_addr: Ipv4Addr::new(192, 168, 1, 2),
    };
    let bytes = sockaddr_in_encode(&sa);
    assert_eq!(bytes.len(), 16);
    assert_eq!(sockaddr_in_decode(&bytes), Some(sa));
    assert_eq!(sockaddr_in_decode(&bytes[0..15]), None);
}

#[test]
fn socket_creation_errors() {
    let mut t = SocketTable::new();
    assert_eq!(sys_socket(&mut t, 1, SOCK_STREAM, 0), -97); // not AF_INET
    assert_eq!(sys_socket(&mut t, AF_INET, 2, 0), -94); // datagram
    assert_eq!(sys_socket(&mut t, AF_INET, 3, 0), -94); // raw
    assert_eq!(sys_socket(&mut t, AF_INET, 9, 0), -94); // unknown
    assert_eq!(sys_socket(&mut t, AF_INET, SOCK_STREAM, 17), -93); // UDP proto
    assert!(t.sockets.is_empty());
}

#[test]
fn socket_creation_and_flags() {
    let mut t = SocketTable::new();
    let fd = sys_socket(&mut t, AF_INET, SOCK_STREAM, 6);
    assert_eq!(fd, 0);
    let fd2 = sys_socket(&mut t, AF_INET, SOCK_STREAM | 0x800, 0); // nonblocking
    assert_eq!(fd2, 1);
    assert!(t.sockets[1].as_ref().unwrap().nonblocking);
    assert!(!t.sockets[0].as_ref().unwrap().nonblocking);
}

#[test]
fn bind_records_address() {
    let mut t = SocketTable::new();
    let fd = sys_socket(&mut t, AF_INET, SOCK_STREAM, 0) as i32;
    assert_eq!(sys_bind(&mut t, fd, &[0u8; 8]), -22); // short sockaddr
    assert_eq!(sys_bind(&mut t, 9, &addr_bytes(Ipv4Addr::new(0, 0, 0, 0), 80)), -9);
    let mut wrong = addr_bytes(Ipv4Addr::new(0, 0, 0, 0), 80);
    wrong[0] = 10; // family 10
    assert_eq!(sys_bind(&mut t, fd, &wrong), -97);
    assert_eq!(sys_bind(&mut t, fd, &addr_bytes(Ipv4Addr::new(10, 0, 0, 1), 80)), 0);
    let name = sys_getsockname(&t, fd).unwrap();
    let sa = sockaddr_in_decode(&name).unwrap();
    assert_eq!(sa.sin_port, 80);
    assert_eq!(sa.sin_addr, Ipv4Addr::new(10, 0, 0, 1));
}

#[test]
fn connect_flow_with_handshake() {
    let local = Ipv4Addr::new(10, 0, 0, 1);
    let remote = Ipv4Addr::new(10, 0, 0, 2);
    let mut t = SocketTable::new();
    let fd = sys_socket(&mut t, AF_INET, SOCK_STREAM, 6) as i32;
    assert_eq!(sys_bind(&mut t, fd, &addr_bytes(local, 8080)), 0);

    let mut out: Vec<Vec<u8>> = Vec::new();
    let r = sys_connect(&mut t, fd, &addr_bytes(remote, 9090), 1000, 50000, &mut out);
    assert_eq!(r, -115); // EINPROGRESS
    assert_eq!(out.len(), 1);
    let syn = tcp_hdr_parse(&out[0]).unwrap();
    assert_eq!(syn.flags, TCP_SYN);
    assert_eq!(syn.seq, 1000);

    // Still connecting.
    assert_eq!(connect_poll(&mut t, fd), None);

    // The peer answers SYN+ACK; deliver it through tcp_rcv.
    let synack = build_tcp_segment(remote, local, 9090, 8080, 7000, 1001, TCP_SYN | TCP_ACK, 65535, &[]);
    let mut skb = SkBuff::allocate(0, 128).unwrap();
    skb.put_slice(&synack).unwrap();
    skb.saddr = Some(remote);
    skb.daddr = Some(local);
    let acts = tcp_rcv(&mut t, &skb);
    assert!(acts.send_ack && acts.wake_connect);

    assert_eq!(connect_poll(&mut t, fd), Some(0));
    let s = t.sockets[fd as usize].as_ref().unwrap();
    assert_eq!(s.tcb.as_ref().unwrap().state, TcpState::Established);

    // Now connected: a second connect is EISCONN.
    let r = sys_connect(&mut t, fd, &addr_bytes(remote, 9090), 1, 1, &mut out);
    assert_eq!(r, -106);

    let peer = sys_getpeername(&t, fd).unwrap();
    let sa = sockaddr_in_decode(&peer).unwrap();
    assert_eq!(sa.sin_port, 9090);
    assert_eq!(sa.sin_addr, remote);
}

#[test]
fn connect_already_in_progress_nonblocking() {
    let mut t = SocketTable::new();
    let fd = sys_socket(&mut t, AF_INET, SOCK_STREAM | 0x800, 6) as i32;
    let mut out: Vec<Vec<u8>> = Vec::new();
    let addr = addr_bytes(Ipv4Addr::new(1, 2, 3, 4), 80);
    assert_eq!(sys_connect(&mut t, fd, &addr, 5, 1234, &mut out), -115);
    assert_eq!(sys_connect(&mut t, fd, &addr, 5, 1234, &mut out), -114); // EALREADY
}

#[test]
fn listen_accept_shutdown() {
    let mut t = SocketTable::new();
    let fd = sys_socket(&mut t, AF_INET, SOCK_STREAM, 0) as i32;
    assert_eq!(sys_listen(&mut t, fd, 16), 0);
    assert_eq!(
        t.sockets[fd as usize].as_ref().unwrap().tcb.as_ref().unwrap().state,
        TcpState::Listen
    );
    assert_eq!(sys_accept(&t, fd), -95); // not implemented
    assert_eq!(sys_accept4(&t, fd, 0), -95);
    assert_eq!(sys_accept(&t, 99), -9);

    let mut out: Vec<Vec<u8>> = Vec::new();
    assert_eq!(sys_shutdown(&mut t, fd, 7, &mut out), -22); // bad how
    assert_eq!(sys_shutdown(&mut t, fd, 0, &mut out), 0);
    assert!(t.sockets[fd as usize].as_ref().unwrap().eof);
}

#[test]
fn getsockopt_so_error_consumes() {
    let mut t = SocketTable::new();
    let fd = sys_socket(&mut t, AF_INET, SOCK_STREAM, 0) as i32;
    t.sockets[fd as usize].as_mut().unwrap().error = 104;
    assert_eq!(sys_getsockopt(&mut t, fd, 1, 4), Ok(104));
    assert_eq!(sys_getsockopt(&mut t, fd, 1, 4), Ok(0)); // cleared
    assert_eq!(sys_getsockopt(&mut t, fd, 0, 1), Ok(0)); // other options read 0
    assert_eq!(sys_getsockopt(&mut t, 42, 1, 4), Err(-9));
    assert_eq!(sys_setsockopt(&t, fd, 1, 2), 0);
    assert_eq!(sys_setsockopt(&t, 42, 1, 2), -9);
}

#[test]
fn recv_paths() {
    let mut t = SocketTable::new();
    let fd = sys_socket(&mut t, AF_INET, SOCK_STREAM | 0x800, 0) as i32;
    {
        // An open connection: a Closed control block reads as end of
        // stream, which is not what this test is about.
        let s = t.sockets[fd as usize].as_mut().unwrap();
        let mut tcb = s.tcb.take().unwrap();
        tcb.state = TcpState::Established;
        s.tcb = Some(tcb);
    }
    assert_eq!(sys_recvfrom(&mut t, fd, 8), Err(-11)); // empty, nonblocking
    {
        let s = t.sockets[fd as usize].as_mut().unwrap();
        s.rx_buf.extend_from_slice(b"abcdef");
    }
    assert_eq!(sys_recvfrom(&mut t, fd, 4), Ok(b"abcd".to_vec()));
    assert_eq!(sys_recvfrom(&mut t, fd, 4), Ok(b"ef".to_vec()));
    {
        let s = t.sockets[fd as usize].as_mut().unwrap();
        s.eof = true;
    }
    assert_eq!(sys_recvfrom(&mut t, fd, 4), Ok(Vec::new())); // end of stream
    {
        let s = t.sockets[fd as usize].as_mut().unwrap();
        s.error = 104;
    }
    assert_eq!(sys_recvfrom(&mut t, fd, 4), Err(-104)); // sticky error consumed
    assert_eq!(t.sockets[fd as usize].as_ref().unwrap().error, 0);
}

#[test]
fn sendto_requires_connection() {
    let mut t = SocketTable::new();
    let fd = sys_socket(&mut t, AF_INET, SOCK_STREAM, 6) as i32;
    let mut out: Vec<Vec<u8>> = Vec::new();
    assert_eq!(sys_sendto(&mut t, fd, b"hi", &mut out), -107); // no peer
    assert_eq!(sys_sendto(&mut t, 9, b"hi", &mut out), -9);
}

#[test]
fn get_socket_validates_descriptors() {
    let mut t = SocketTable::new();
    assert_eq!(get_socket(&t, -1), Err(-9));
    assert_eq!(get_socket(&t, 0), Err(-9));
    let fd = sys_socket(&mut t, AF_INET, SOCK_STREAM, 0) as i32;
    assert_eq!(get_socket(&t, fd), Ok(fd as usize));
}
