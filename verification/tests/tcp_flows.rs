use kcore::ipv4::Ipv4Addr;
use kcore::skb::SkBuff;
use kcore::socket::{
    socket_poll_mask, socket_read_step, socket_write_step, AddressFamily, ReadOutcome, Socket,
    SocketFileOps, SocketTable, SocketType, WriteOutcome, POLLHUP, POLLIN, POLLOUT,
};
use kcore::tcp::{
    seq_le, seq_lt, tcp_checksum, tcp_hdr_parse, wrap_add, wrap_sub, Tcb, TcpState, TCP_ACK,
    TCP_FIN, TCP_RST, TCP_SYN,
};
use kcore::tcp_input::{process_established, process_syn_sent, tcp_rcv, ECONNRESET};
use kcore::tcp_output::{build_tcp_segment, tcp_close, tcp_connect, tcp_sendmsg, TCP_MSS};
use kcore::NetError;

const LOCAL: Ipv4Addr = Ipv4Addr { bits: 0x0A000001 };
const REMOTE: Ipv4Addr = Ipv4Addr { bits: 0x0A000002 };

fn connected_socket(state: TcpState) -> Socket {
    let mut s = Socket::new(AddressFamily::Inet, SocketType::Stream, 6);
    s.set_local(LOCAL, 8080);
    s.set_remote(REMOTE, 9090);
    let mut tcb = s.tcb.take().unwrap();
    tcb.state = state;
    s.tcb = Some(tcb);
    s
}

fn skb_for_segment(seg: &[u8]) -> SkBuff {
    let mut skb = SkBuff::allocate(64, 1514).unwrap();
    skb.put_slice(seg).unwrap();
    skb.saddr = Some(REMOTE);
    skb.daddr = Some(LOCAL);
    skb
}

#[test]
fn wrap_arithmetic() {
    assert_eq!(wrap_add(0xFFFFFFFF, 1), 0);
    assert_eq!(wrap_add(0xFFFFFFFE, 3), 1);
    assert_eq!(wrap_sub(0, 1), 0xFFFFFFFF);
    assert_eq!(wrap_sub(5, 2), 3);
    assert!(seq_lt(0xFFFFFFF0, 4)); // across the wrap
    assert!(seq_lt(1000, 1001));
    assert!(!seq_lt(1001, 1000));
    assert!(seq_le(7, 7));
}

#[test]
fn tcp_header_parse_exact() {
    let seg = build_tcp_segment(LOCAL, REMOTE, 0x1234, 0x5678, 0xDEADBEEF, 0x01020304, TCP_ACK, 512, &[1, 2, 3]);
    let hdr = tcp_hdr_parse(&seg).unwrap();
    assert_eq!(hdr.source_port, 0x1234);
    assert_eq!(hdr.dest_port, 0x5678);
    assert_eq!(hdr.seq, 0xDEADBEEF);
    assert_eq!(hdr.ack_seq, 0x01020304);
    assert_eq!(hdr.data_offset, 20);
    assert_eq!(hdr.flags, TCP_ACK);
    assert_eq!(hdr.window, 512);
    assert!(tcp_hdr_parse(&seg[0..19]).is_none());
}

#[test]
fn checksum_of_built_segment_is_zero() {
    // The receive-side sum over a segment with a correct checksum field
    // folds to zero.
    let seg = build_tcp_segment(REMOTE, LOCAL, 9090, 8080, 5000, 1001, TCP_SYN | TCP_ACK, 65535, b"xy");
    assert_eq!(tcp_checksum(REMOTE, LOCAL, &seg), 0);
    // Corrupting a byte breaks it.
    let mut bad = seg.clone();
    bad[4] ^= 0xFF;
    assert_ne!(tcp_checksum(REMOTE, LOCAL, &bad), 0);
}

#[test]
fn three_way_handshake() {
    // Socket in SynSent with SND.NXT = 1001.
    let mut table = SocketTable::new();
    let mut s = connected_socket(TcpState::SynSent);
    let mut tcb = s.tcb.take().unwrap();
    tcb.iss = 1000;
    tcb.snd_una = 1000;
    tcb.snd_nxt = 1001;
    s.tcb = Some(tcb);
    table.sockets.push(Some(s));

    // Receive SYN+ACK seq=5000 ack=1001 win=65535.
    let seg = build_tcp_segment(REMOTE, LOCAL, 9090, 8080, 5000, 1001, TCP_SYN | TCP_ACK, 65535, &[]);
    let skb = skb_for_segment(&seg);
    let acts = tcp_rcv(&mut table, &skb);

    let s = table.sockets[0].as_ref().unwrap();
    let tcb = s.tcb.as_ref().unwrap();
    assert_eq!(tcb.state, TcpState::Established);
    assert_eq!(tcb.rcv_nxt, 5001);
    assert_eq!(tcb.snd_una, 1001);
    assert_eq!(tcb.snd_wnd, 65535);
    assert_eq!(tcb.irs, 5000);
    assert!(acts.send_ack);
    assert!(acts.wake_connect);
    assert!(!acts.wake_all);
}

#[test]
fn data_and_fin() {
    // Established with RCV.NXT = 5001.
    let mut table = SocketTable::new();
    let mut s = connected_socket(TcpState::Established);
    let mut tcb = s.tcb.take().unwrap();
    tcb.snd_una = 1001;
    tcb.snd_nxt = 1001;
    tcb.rcv_nxt = 5001;
    s.tcb = Some(tcb);
    table.sockets.push(Some(s));

    // Receive seq=5001 payload "hi" => RX queue "hi", RCV.NXT 5003, ACK.
    let seg = build_tcp_segment(REMOTE, LOCAL, 9090, 8080, 5001, 1001, TCP_ACK, 65535, b"hi");
    let acts = tcp_rcv(&mut table, &skb_for_segment(&seg));
    {
        let s = table.sockets[0].as_ref().unwrap();
        assert_eq!(s.rx_buf, b"hi".to_vec());
        assert_eq!(s.tcb.as_ref().unwrap().rcv_nxt, 5003);
        assert!(acts.send_ack);
        assert!(acts.wake_rx);
    }

    // Receive seq=5003 FIN => CloseWait, RCV.NXT 5004, EOF set.
    let fin = build_tcp_segment(REMOTE, LOCAL, 9090, 8080, 5003, 1001, TCP_FIN | TCP_ACK, 65535, &[]);
    let acts = tcp_rcv(&mut table, &skb_for_segment(&fin));
    {
        let s = table.sockets[0].as_mut().unwrap();
        assert_eq!(s.tcb.as_ref().unwrap().state, TcpState::CloseWait);
        assert_eq!(s.tcb.as_ref().unwrap().rcv_nxt, 5004);
        assert!(s.eof);
        assert!(acts.send_ack);

        // Reader drains "hi", then gets 0 (end of stream).
        match socket_read_step(s, 16, false) {
            ReadOutcome::Data(d) => assert_eq!(d, b"hi".to_vec()),
            other => panic!("expected data, got {:?}", other),
        }
        match socket_read_step(s, 16, false) {
            ReadOutcome::Eof => {}
            other => panic!("expected eof, got {:?}", other),
        }
    }
}

#[test]
fn syn_sent_wrong_ack_sends_rst() {
    let mut s = connected_socket(TcpState::SynSent);
    let mut tcb = s.tcb.take().unwrap();
    tcb.snd_nxt = 1001;
    s.tcb = Some(tcb);
    let seg = build_tcp_segment(REMOTE, LOCAL, 9090, 8080, 5000, 4242, TCP_SYN | TCP_ACK, 100, &[]);
    let hdr = tcp_hdr_parse(&seg).unwrap();
    let acts = process_syn_sent(&mut s, &hdr, &[]);
    assert!(acts.send_rst);
    assert_eq!(s.tcb.as_ref().unwrap().state, TcpState::SynSent);
}

#[test]
fn syn_sent_rst_refuses_connection() {
    let mut s = connected_socket(TcpState::SynSent);
    let mut tcb = s.tcb.take().unwrap();
    tcb.snd_nxt = 1001;
    s.tcb = Some(tcb);
    let seg = build_tcp_segment(REMOTE, LOCAL, 9090, 8080, 0, 1001, TCP_RST | TCP_ACK, 0, &[]);
    let hdr = tcp_hdr_parse(&seg).unwrap();
    let acts = process_syn_sent(&mut s, &hdr, &[]);
    assert_eq!(s.tcb.as_ref().unwrap().state, TcpState::Closed);
    assert_eq!(s.error, 111); // ECONNREFUSED
    assert!(acts.wake_connect);
}

#[test]
fn established_rst_resets() {
    let mut s = connected_socket(TcpState::Established);
    let seg = build_tcp_segment(REMOTE, LOCAL, 9090, 8080, 1, 1, TCP_RST, 0, &[]);
    let hdr = tcp_hdr_parse(&seg).unwrap();
    let acts = process_established(&mut s, &hdr, &[]);
    assert_eq!(s.tcb.as_ref().unwrap().state, TcpState::Closed);
    assert_eq!(s.error, ECONNRESET);
    assert!(acts.wake_all);
}

#[test]
fn ack_drops_retransmit_prefix() {
    let mut s = connected_socket(TcpState::Established);
    let mut tcb = s.tcb.take().unwrap();
    tcb.snd_una = 1000;
    tcb.snd_nxt = 1020;
    tcb.rcv_nxt = 5001;
    tcb.rtx_queue.push(kcore::tcp::RtxEntry { seq: 1000, data: vec![0; 10] });
    tcb.rtx_queue.push(kcore::tcp::RtxEntry { seq: 1010, data: vec![0; 10] });
    s.tcb = Some(tcb);
    // ACK 1010 covers the first segment's right edge only.
    let seg = build_tcp_segment(REMOTE, LOCAL, 9090, 8080, 5001, 1010, TCP_ACK, 1000, &[]);
    let hdr = tcp_hdr_parse(&seg).unwrap();
    let acts = process_established(&mut s, &hdr, &[]);
    let tcb = s.tcb.as_ref().unwrap();
    assert_eq!(tcb.snd_una, 1010);
    assert_eq!(tcb.snd_wnd, 1000);
    assert_eq!(tcb.rtx_queue.len(), 1);
    assert_eq!(tcb.rtx_queue[0].seq, 1010);
    assert!(acts.wake_tx);
}

#[test]
fn out_of_order_data_queued() {
    let mut s = connected_socket(TcpState::Established);
    let mut tcb = s.tcb.take().unwrap();
    tcb.rcv_nxt = 5001;
    s.tcb = Some(tcb);
    // seq 6000 is ahead of rcv_nxt: goes to the out-of-order queue.
    let seg = build_tcp_segment(REMOTE, LOCAL, 9090, 8080, 6000, 0, 0, 0, b"zz");
    let hdr = tcp_hdr_parse(&seg).unwrap();
    let acts = process_established(&mut s, &hdr, b"zz");
    let tcb = s.tcb.as_ref().unwrap();
    assert_eq!(tcb.rcv_nxt, 5001);
    assert_eq!(tcb.ooo_queue.len(), 1);
    assert_eq!(tcb.ooo_queue[0].0, 6000);
    assert_eq!(tcb.ooo_queue[0].1, b"zz".to_vec());
    assert!(acts.send_ack); // duplicate ACK
    assert!(s.rx_buf.is_empty());
}

#[test]
fn fin_wait_sequence() {
    // Established, local close: FIN sent, then the peer ACKs and FINs.
    let mut s = connected_socket(TcpState::Established);
    let mut tcb = s.tcb.take().unwrap();
    tcb.snd_una = 100;
    tcb.snd_nxt = 100;
    tcb.rcv_nxt = 200;
    s.tcb = Some(tcb);
    let fin = tcp_close(&mut s).unwrap();
    let fin_hdr = tcp_hdr_parse(&fin).unwrap();
    assert_eq!(fin_hdr.seq, 100);
    assert_eq!(s.tcb.as_ref().unwrap().state, TcpState::FinWait1);
    assert_eq!(s.tcb.as_ref().unwrap().snd_nxt, 101);

    // Peer ACKs our FIN: FinWait2.
    let ack = build_tcp_segment(REMOTE, LOCAL, 9090, 8080, 200, 101, TCP_ACK, 1000, &[]);
    let hdr = tcp_hdr_parse(&ack).unwrap();
    kcore::tcp_input::process_fin_wait1(&mut s, &hdr, &[]);
    assert_eq!(s.tcb.as_ref().unwrap().state, TcpState::FinWait2);

    // Peer FINs: TimeWait, EOF.
    let fin2 = build_tcp_segment(REMOTE, LOCAL, 9090, 8080, 200, 101, TCP_FIN, 1000, &[]);
    let hdr = tcp_hdr_parse(&fin2).unwrap();
    let acts = kcore::tcp_input::process_fin_wait2(&mut s, &hdr, &[]);
    assert_eq!(s.tcb.as_ref().unwrap().state, TcpState::TimeWait);
    assert_eq!(s.tcb.as_ref().unwrap().rcv_nxt, 201);
    assert!(s.eof);
    assert!(acts.send_ack && acts.wake_all);
}

#[test]
fn close_wait_to_last_ack_to_closed() {
    let mut s = connected_socket(TcpState::CloseWait);
    let mut tcb = s.tcb.take().unwrap();
    tcb.snd_nxt = 300;
    tcb.rcv_nxt = 400;
    s.tcb = Some(tcb);
    let fin = tcp_close(&mut s).unwrap();
    assert!(!fin.is_empty());
    assert_eq!(s.tcb.as_ref().unwrap().state, TcpState::LastAck);
    let ack = build_tcp_segment(REMOTE, LOCAL, 9090, 8080, 400, 301, TCP_ACK, 1000, &[]);
    let hdr = tcp_hdr_parse(&ack).unwrap();
    let acts = kcore::tcp_input::process_last_ack(&mut s, &hdr);
    assert_eq!(s.tcb.as_ref().unwrap().state, TcpState::Closed);
    assert!(acts.wake_all);
}

#[test]
fn connect_builds_syn() {
    let mut s = Socket::new(AddressFamily::Inet, SocketType::Stream, 6);
    s.set_local(LOCAL, 8080);
    let syn = tcp_connect(&mut s, REMOTE, 9090, 1000);
    let hdr = tcp_hdr_parse(&syn).unwrap();
    assert_eq!(hdr.seq, 1000);
    assert_eq!(hdr.flags, TCP_SYN);
    let tcb = s.tcb.as_ref().unwrap();
    assert_eq!(tcb.state, TcpState::SynSent);
    assert_eq!(tcb.iss, 1000);
    assert_eq!(tcb.snd_una, 1000);
    assert_eq!(tcb.snd_nxt, 1001);
    assert_eq!(s.remote, Some((REMOTE, 9090)));
}

#[test]
fn sendmsg_slices_into_mss_segments() {
    let mut s = connected_socket(TcpState::Established);
    let mut tcb = s.tcb.take().unwrap();
    tcb.snd_una = 1000;
    tcb.snd_nxt = 1000;
    tcb.snd_wnd = 65535;
    tcb.rcv_nxt = 2000;
    s.tcb = Some(tcb);
    let data = vec![7u8; TCP_MSS + 100];
    let mut out: Vec<Vec<u8>> = Vec::new();
    let n = tcp_sendmsg(&mut s, &data, &mut out).unwrap();
    assert_eq!(n, TCP_MSS + 100);
    assert_eq!(out.len(), 2);
    let h0 = tcp_hdr_parse(&out[0]).unwrap();
    let h1 = tcp_hdr_parse(&out[1]).unwrap();
    assert_eq!(h0.seq, 1000);
    assert_eq!(h1.seq, 1000 + TCP_MSS as u32);
    assert_eq!(out[0].len(), 20 + TCP_MSS);
    assert_eq!(out[1].len(), 20 + 100);
    let tcb = s.tcb.as_ref().unwrap();
    assert_eq!(tcb.snd_nxt, 1000 + TCP_MSS as u32 + 100);
    assert_eq!(tcb.rtx_queue.len(), 2);
}

#[test]
fn sendmsg_window_limits() {
    let mut s = connected_socket(TcpState::Established);
    let mut tcb = s.tcb.take().unwrap();
    tcb.snd_una = 1000;
    tcb.snd_nxt = 1000;
    tcb.snd_wnd = 10;
    s.tcb = Some(tcb);
    let mut out: Vec<Vec<u8>> = Vec::new();
    let n = tcp_sendmsg(&mut s, b"hello world, hello", &mut out).unwrap();
    assert_eq!(n, 10); // capped by the peer window

    // Window now exhausted: would block.
    assert_eq!(
        tcp_sendmsg(&mut s, b"more", &mut out),
        Err(NetError::WouldBlock)
    );
}

#[test]
fn sendmsg_not_connected() {
    let mut s = connected_socket(TcpState::Closed);
    let mut out: Vec<Vec<u8>> = Vec::new();
    assert_eq!(
        tcp_sendmsg(&mut s, b"x", &mut out),
        Err(NetError::NotConnected)
    );
}

#[test]
fn tcp_rcv_drops_bad_checksum() {
    let mut table = SocketTable::new();
    table.sockets.push(Some(connected_socket(TcpState::Established)));
    let mut seg = build_tcp_segment(REMOTE, LOCAL, 9090, 8080, 1, 1, TCP_ACK, 100, b"data");
    seg[23] ^= 0x55; // corrupt the payload
    let acts = tcp_rcv(&mut table, &skb_for_segment(&seg));
    assert!(!acts.send_ack && !acts.send_rst);
    assert!(table.sockets[0].as_ref().unwrap().rx_buf.is_empty());
}

#[test]
fn tcp_rcv_drops_short_and_oversized_segments() {
    // Shorter than a header, or longer than the 16-bit segment length
    // the pseudo-header can express: dropped before any processing.
    let mut table = SocketTable::new();
    table.sockets.push(Some(connected_socket(TcpState::Established)));

    let mut short = SkBuff::allocate(0, 64).unwrap();
    short.put(10).unwrap();
    short.saddr = Some(REMOTE);
    short.daddr = Some(LOCAL);
    let acts = tcp_rcv(&mut table, &short);
    assert!(!acts.send_ack && !acts.send_rst);

    let mut huge = short;
    huge.buf = vec![0u8; 0x10000 + 20];
    huge.data = 0;
    huge.tail = huge.buf.len();
    let acts = tcp_rcv(&mut table, &huge);
    assert!(!acts.send_ack && !acts.send_rst);
    assert!(table.sockets[0].as_ref().unwrap().rx_buf.is_empty());
}

#[test]
fn tcp_rcv_no_connection_sends_rst() {
    let mut table = SocketTable::new();
    let seg = build_tcp_segment(REMOTE, LOCAL, 9090, 8080, 1, 1, TCP_ACK, 100, &[]);
    let acts = tcp_rcv(&mut table, &skb_for_segment(&seg));
    assert!(acts.send_rst);
}

#[test]
fn poll_mask_reflects_state() {
    let mut s = connected_socket(TcpState::Established);
    let m = socket_poll_mask(&s);
    assert_eq!(m & POLLIN, 0);
    assert_eq!(m & POLLHUP, 0);
    s.rx_buf.push(1);
    s.eof = true;
    let m = socket_poll_mask(&s);
    assert_ne!(m & POLLIN, 0);
    assert_ne!(m & POLLHUP, 0);
}

#[test]
fn tcb_new_is_closed() {
    let t = Tcb::new();
    assert_eq!(t.state, TcpState::Closed);
    assert_eq!(t.snd_una, 0);
    assert!(t.rtx_queue.is_empty());
    assert!(t.ooo_queue.is_empty());
}

#[test]
fn write_step_consumes_error_and_blocks() {
    let mut s = connected_socket(TcpState::Established);
    s.error = 104;
    let mut out: Vec<Vec<u8>> = Vec::new();
    match socket_write_step(&mut s, b"x", false, &mut out) {
        WriteOutcome::ErrPending(e) => assert_eq!(e, 104),
        other => panic!("expected pending error, got {:?}", other),
    }
    assert_eq!(s.error, 0);

    // Window full, blocking socket: the caller must suspend on TX.
    let mut tcb = s.tcb.take().unwrap();
    tcb.snd_wnd = 0;
    s.tcb = Some(tcb);
    match socket_write_step(&mut s, b"x", false, &mut out) {
        WriteOutcome::Block => {}
        other => panic!("expected block, got {:?}", other),
    }
    s.set_nonblocking(true);
    match socket_write_step(&mut s, b"x", false, &mut out) {
        WriteOutcome::WouldBlock => {}
        other => panic!("expected would-block, got {:?}", other),
    }
}

#[test]
fn file_ops_surface() {
    let mut ops = SocketFileOps::new(connected_socket(TcpState::Established));
    assert_eq!(ops.socket().tcb.as_ref().unwrap().state, TcpState::Established);
    let mut out: Vec<Vec<u8>> = Vec::new();
    {
        let mut tcb = ops.socket.tcb.take().unwrap();
        tcb.snd_wnd = 100;
        ops.socket.tcb = Some(tcb);
    }
    match ops.write(b"ping", false, &mut out) {
        WriteOutcome::Wrote(n) => assert_eq!(n, 4),
        other => panic!("expected write, got {:?}", other),
    }
    assert_eq!(out.len(), 1);
    match ops.read(4, true) {
        ReadOutcome::WouldBlock => {}
        other => panic!("expected would-block, got {:?}", other),
    }
    let m = ops.poll();
    assert_ne!(m & POLLOUT, 0);
    let fin = ops.release();
    assert!(fin.is_some());
    assert_eq!(ops.socket.tcb.as_ref().unwrap().state, TcpState::FinWait1);
}
