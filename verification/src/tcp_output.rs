//! TCP output: segment building, connection initiation and close, and
//! sending data sliced into MSS- and window-bounded segments appended to
//! the retransmit queue.

use vstd::prelude::*;

use crate::ipv4::Ipv4Addr;
use crate::socket::Socket;
use crate::tcp::{
    RtxEntry,
    Tcb,
    TcpState,
    TCP_ACK,
    TCP_FIN,
    TCP_PSH,
    TCP_SYN,
    copy_bytes_slice,
    spec_rtx_model,
    spec_tcp_checksum,
    spec_wrap_add,
    spec_wrap_sub,
    tcp_checksum,
    wrap_add,
    wrap_sub,
};
use crate::NetError;

verus! {

/// Maximum segment size: standard Ethernet MTU minus IPv4 and TCP
/// headers.
pub const TCP_MSS: usize = 1460;

/// The default receive window advertised by new connections.
pub const TCP_DEFAULT_WINDOW: u16 = 0xffff;

/// A TCP segment with the checksum field still zero: ports, sequence and
/// acknowledgment numbers big-endian, header length 20, then the payload.
pub open spec fn spec_segment_zero_cksum(
    src_port: u16,
    dst_port: u16,
    seq: u32,
    ack: u32,
    flags: u8,
    window: u16,
    payload: Seq<u8>,
) -> Seq<u8> {
    seq![
        (src_port >> 8) as u8,
        (src_port & 0xff) as u8,
        (dst_port >> 8) as u8,
        (dst_port & 0xff) as u8,
        (seq >> 24) as u8,
        ((seq >> 16) & 0xff) as u8,
        ((seq >> 8) & 0xff) as u8,
        (seq & 0xff) as u8,
        (ack >> 24) as u8,
        ((ack >> 16) & 0xff) as u8,
        ((ack >> 8) & 0xff) as u8,
        (ack & 0xff) as u8,
        0x50u8,
        flags,
        (window >> 8) as u8,
        (window & 0xff) as u8,
        0u8,
        0u8,
        0u8,
        0u8,
    ] + payload
}

/// A complete TCP segment: the zero-checksum layout with the checksum
/// over the pseudo-header and segment stored big-endian at bytes 16-17.
pub open spec fn spec_tcp_segment_bytes(
    src: Ipv4Addr,
    dst: Ipv4Addr,
    src_port: u16,
    dst_port: u16,
    seq: u32,
    ack: u32,
    flags: u8,
    window: u16,
    payload: Seq<u8>,
) -> Seq<u8> {
    let base = spec_segment_zero_cksum(src_port, dst_port, seq, ack, flags, window, payload);
    let c = spec_tcp_checksum(src, dst, base);
    base.update(16, (c >> 8) as u8).update(17, (c & 0xff) as u8)
}

/// Build a TCP segment with a correct checksum field.
pub fn build_tcp_segment(
    src: Ipv4Addr,
    dst: Ipv4Addr,
    src_port: u16,
    dst_port: u16,
    seq: u32,
    ack: u32,
    flags: u8,
    window: u16,
    payload: &[u8],
) -> (r: Vec<u8>)
    requires
        payload@.len() + 20 <= 0xffff,
    ensures
        r@ == spec_tcp_segment_bytes(
            src,
            dst,
            src_port,
            dst_port,
            seq,
            ack,
            flags,
            window,
            payload@,
        ),
        r@.len() == 20 + payload@.len(),
{
    let mut seg: Vec<u8> = Vec::new();
    seg.push((src_port >> 8) as u8);
    seg.push((src_port & 0xff) as u8);
    seg.push((dst_port >> 8) as u8);
    seg.push((dst_port & 0xff) as u8);
    seg.push((seq >> 24) as u8);
    seg.push(((seq >> 16) & 0xff) as u8);
    seg.push(((seq >> 8) & 0xff) as u8);
    seg.push((seq & 0xff) as u8);
    seg.push((ack >> 24) as u8);
    seg.push(((ack >> 16) & 0xff) as u8);
    seg.push(((ack >> 8) & 0xff) as u8);
    seg.push((ack & 0xff) as u8);
    seg.push(0x50);
    seg.push(flags);
    seg.push((window >> 8) as u8);
    seg.push((window & 0xff) as u8);
    seg.push(0);
    seg.push(0);
    seg.push(0);
    seg.push(0);
    let mut i: usize = 0;
    while i < payload.len()
        invariant
            i <= payload@.len(),
            seg@.len() == 20 + i,
            seg@ == spec_segment_zero_cksum(
                src_port,
                dst_port,
                seq,
                ack,
                flags,
                window,
                payload@.take(i as int),
            ),
        decreases payload@.len() - i,
    {
        seg.push(payload[i]);
        proof {
            assert(seg@ =~= spec_segment_zero_cksum(
                src_port,
                dst_port,
                seq,
                ack,
                flags,
                window,
                payload@.take(i + 1),
            ));
        }
        i = i + 1;
    }
    proof {
        assert(payload@.take(payload@.len() as int) =~= payload@);
    }
    let c: u16 = tcp_checksum(src, dst, seg.as_slice());
    seg[16] = (c >> 8) as u8;
    seg[17] = (c & 0xff) as u8;
    proof {
        assert(seg@ =~= spec_tcp_segment_bytes(
            src,
            dst,
            src_port,
            dst_port,
            seq,
            ack,
            flags,
            window,
            payload@,
        ));
    }
    seg
}

/// Build the empty acknowledgment segment for the connection's current
/// numbers: sequence `SND.NXT`, acknowledging `RCV.NXT`. Fails exactly
/// when the socket lacks a control block, a local or a remote address.
pub fn tcp_send_ack(sock: &Socket) -> (r: Option<Vec<u8>>)
    ensures
        r is Some <==> sock.tcb is Some && sock.local is Some && sock.remote is Some,
        r is Some ==> r->Some_0@ == spec_tcp_segment_bytes(
            (sock.local->0).0,
            (sock.remote->0).0,
            (sock.local->0).1,
            (sock.remote->0).1,
            sock.tcb->0.snd_nxt,
            sock.tcb->0.rcv_nxt,
            TCP_ACK,
            (sock.tcb->0.rcv_wnd & 0xffff) as u16,
            Seq::<u8>::empty(),
        ),
{
    let tcb = match &sock.tcb {
        Some(t) => t,
        None => {
            return None;
        },
    };
    let (laddr, lport) = match sock.local {
        Some(lp) => lp,
        None => {
            return None;
        },
    };
    let (raddr, rport) = match sock.remote {
        Some(rp) => rp,
        None => {
            return None;
        },
    };
    let window: u16 = (tcb.rcv_wnd & 0xffff) as u16;
    let empty: [u8; 0] = [];
    let seg = build_tcp_segment(
        laddr,
        raddr,
        lport,
        rport,
        tcb.snd_nxt,
        tcb.rcv_nxt,
        TCP_ACK,
        window,
        empty.as_slice(),
    );
    proof {
        assert(empty@ =~= Seq::<u8>::empty());
    }
    Some(seg)
}

/// Initiate a connection: record the remote address, take `iss` as the
/// initial send sequence number, move to SynSent and return the SYN
/// segment to emit (sequence `iss`; `SND.NXT` becomes `iss + 1`).
pub fn tcp_connect(sock: &mut Socket, remote_addr: Ipv4Addr, remote_port: u16, iss: u32) -> (r:
    Vec<u8>)
    requires
        old(sock).tcb is Some,
        old(sock).local is Some,
    ensures
        *final(sock) == (Socket {
            tcb: Some(
                Tcb {
                    state: TcpState::SynSent,
                    iss,
                    snd_una: iss,
                    snd_nxt: spec_wrap_add(iss, 1),
                    rcv_wnd: TCP_DEFAULT_WINDOW as u32,
                    ..old(sock).tcb->0
                },
            ),
            remote: Some((remote_addr, remote_port)),
            ..*old(sock)
        }),
        r@ == spec_tcp_segment_bytes(
            (old(sock).local->0).0,
            remote_addr,
            (old(sock).local->0).1,
            remote_port,
            iss,
            0,
            TCP_SYN,
            TCP_DEFAULT_WINDOW,
            Seq::<u8>::empty(),
        ),
{
    let (laddr, lport) = match sock.local {
        Some(lp) => lp,
        None => {
            proof {
                assert(false);
            }
            (Ipv4Addr::from_u32(0), 0)
        },
    };
    let mut t = match sock.tcb.take() {
        Some(t) => t,
        None => {
            proof {
                assert(false);
            }
            Tcb::new()
        },
    };
    t.iss = iss;
    t.snd_una = iss;
    t.snd_nxt = wrap_add(iss, 1);
    t.rcv_wnd = TCP_DEFAULT_WINDOW as u32;
    t.state = TcpState::SynSent;
    sock.tcb = Some(t);
    sock.remote = Some((remote_addr, remote_port));
    let empty: [u8; 0] = [];
    let seg = build_tcp_segment(
        laddr,
        remote_addr,
        lport,
        remote_port,
        iss,
        0,
        TCP_SYN,
        TCP_DEFAULT_WINDOW,
        empty.as_slice(),
    );
    proof {
        assert(empty@ =~= Seq::<u8>::empty());
    }
    seg
}

/// Initiate a local close. From Established the connection moves to
/// FinWait1 and from CloseWait to LastAck, in both cases emitting a FIN
/// that consumes one sequence number; from SynSent or Listen it drops
/// straight to Closed with nothing to send; in any other state nothing
/// changes.
pub fn tcp_close(sock: &mut Socket) -> (r: Option<Vec<u8>>)
    requires
        old(sock).tcb is Some,
        (old(sock).tcb->0.state == TcpState::Established || old(sock).tcb->0.state
            == TcpState::CloseWait) ==> old(sock).local is Some && old(sock).remote is Some,
    ensures
        final(sock).tcb is Some,
        ({
            let t = old(sock).tcb->0;
            if t.state == TcpState::Established || t.state == TcpState::CloseWait {
                &&& *final(sock) == (Socket {
                    tcb: Some(
                        Tcb {
                            state: if t.state == TcpState::Established {
                                TcpState::FinWait1
                            } else {
                                TcpState::LastAck
                            },
                            snd_nxt: spec_wrap_add(t.snd_nxt, 1),
                            ..t
                        },
                    ),
                    ..*old(sock)
                })
                &&& r is Some
                &&& r->Some_0@ == spec_tcp_segment_bytes(
                    (old(sock).local->0).0,
                    (old(sock).remote->0).0,
                    (old(sock).local->0).1,
                    (old(sock).remote->0).1,
                    t.snd_nxt,
                    t.rcv_nxt,
                    (TCP_FIN | TCP_ACK) as u8,
                    (t.rcv_wnd & 0xffff) as u16,
                    Seq::<u8>::empty(),
                )
            } else if t.state == TcpState::SynSent || t.state == TcpState::Listen {
                &&& *final(sock) == (Socket {
                    tcb: Some(Tcb { state: TcpState::Closed, ..t }),
                    ..*old(sock)
                })
                &&& r is None
            } else {
                *final(sock) == *old(sock) && r is None
            }
        }),
{
    let state = match &sock.tcb {
        Some(t) => t.state,
        None => TcpState::Closed,
    };
    if state == TcpState::Established || state == TcpState::CloseWait {
        let (laddr, lport) = match sock.local {
            Some(lp) => lp,
            None => {
                proof {
                    assert(false);
                }
                (Ipv4Addr::from_u32(0), 0)
            },
        };
        let (raddr, rport) = match sock.remote {
            Some(rp) => rp,
            None => {
                proof {
                    assert(false);
                }
                (Ipv4Addr::from_u32(0), 0)
            },
        };
        let mut t = match sock.tcb.take() {
            Some(t) => t,
            None => {
                proof {
                    assert(false);
                }
                Tcb::new()
            },
        };
        let fin_seq = t.snd_nxt;
        let window: u16 = (t.rcv_wnd & 0xffff) as u16;
        let rcv_nxt = t.rcv_nxt;
        t.snd_nxt = wrap_add(t.snd_nxt, 1);
        if state == TcpState::Established {
            t.state = TcpState::FinWait1;
        } else {
            t.state = TcpState::LastAck;
        }
        sock.tcb = Some(t);
        let empty: [u8; 0] = [];
        let seg = build_tcp_segment(
            laddr,
            raddr,
            lport,
            rport,
            fin_seq,
            rcv_nxt,
            TCP_FIN | TCP_ACK,
            window,
            empty.as_slice(),
        );
        proof {
            assert(empty@ =~= Seq::<u8>::empty());
        }
        Some(seg)
    } else if state == TcpState::SynSent || state == TcpState::Listen {
        let mut t = match sock.tcb.take() {
            Some(t) => t,
            None => {
                proof {
                    assert(false);
                }
                Tcb::new()
            },
        };
        t.state = TcpState::Closed;
        sock.tcb = Some(t);
        None
    } else {
        None
    }
}

/// The data a send call accepts, sliced into MSS-sized chunks, each
/// tagged with the sequence number it occupies.
pub open spec fn spec_chunks(data: Seq<u8>, seq0: u32) -> Seq<(u32, Seq<u8>)>
    decreases data.len(),
{
    if data.len() == 0 {
        Seq::empty()
    } else {
        let take: int = if data.len() >= TCP_MSS {
            TCP_MSS as int
        } else {
            data.len() as int
        };
        seq![(seq0, data.take(take))] + spec_chunks(
            data.skip(take),
            spec_wrap_add(seq0, take as u32),
        )
    }
}

/// The usable send window: how many bytes past `SND.NXT` the peer's
/// window still allows.
pub open spec fn spec_usable_window(t: Tcb) -> int {
    let in_flight = spec_wrap_sub(t.snd_nxt, t.snd_una);
    if t.snd_wnd > in_flight {
        t.snd_wnd - in_flight
    } else {
        0
    }
}

/// Send data on an established connection: accept up to the usable
/// window, slice into MSS-bounded segments, assign each the next send
/// sequence number, append them to the retransmit queue and push the
/// built segments (with ACK and PSH set) to `out`. Fails with
/// NotConnected off the Established state, changing nothing, and with
/// WouldBlock, changing nothing, exactly when the usable window is zero
/// while data was offered.
#[verifier::loop_isolation(false)]
#[verifier::rlimit(80)]
pub fn tcp_sendmsg(sock: &mut Socket, data: &[u8], out: &mut Vec<Vec<u8>>) -> (r: Result<
    usize,
    NetError,
>)
    requires
        old(sock).tcb is Some,
        old(sock).local is Some,
        old(sock).remote is Some,
        crate::socket::spec_sock_wf(*old(sock)),
    ensures
        crate::socket::spec_sock_wf(*final(sock)),
        old(sock).tcb->0.state != TcpState::Established ==> r == Err::<usize, NetError>(
            NetError::NotConnected,
        ) && *final(sock) == *old(sock) && *final(out) == *old(out),
        old(sock).tcb->0.state == TcpState::Established && spec_usable_window(old(sock).tcb->0)
            == 0 && data@.len() > 0 ==> r == Err::<usize, NetError>(NetError::WouldBlock)
            && *final(sock) == *old(sock) && *final(out) == *old(out),
        old(sock).tcb->0.state == TcpState::Established && (spec_usable_window(old(sock).tcb->0)
            > 0 || data@.len() == 0) ==> {
            let t = old(sock).tcb->0;
            let sent: int = if data@.len() <= spec_usable_window(t) {
                data@.len() as int
            } else {
                spec_usable_window(t)
            };
            let chunks = spec_chunks(data@.take(sent), t.snd_nxt);
            &&& r == Ok::<usize, NetError>(sent as usize)
            &&& final(sock).tcb is Some
            &&& final(sock).tcb->0.snd_nxt == spec_wrap_add(t.snd_nxt, sent as u32)
            &&& spec_rtx_model(final(sock).tcb->0.rtx_queue@) == spec_rtx_model(t.rtx_queue@)
                + chunks
            &&& final(sock).tcb->0.state == TcpState::Established
            &&& final(sock).tcb->0.snd_una == t.snd_una && final(sock).tcb->0.rcv_nxt == t.rcv_nxt
            &&& final(out)@.len() == old(out)@.len() + chunks.len()
            &&& (forall|k: int|
                0 <= k < chunks.len() ==> (#[trigger] final(out)@[old(out)@.len() + k])@
                    == spec_tcp_segment_bytes(
                    (old(sock).local->0).0,
                    (old(sock).remote->0).0,
                    (old(sock).local->0).1,
                    (old(sock).remote->0).1,
                    chunks[k].0,
                    t.rcv_nxt,
                    (TCP_ACK | TCP_PSH) as u8,
                    (t.rcv_wnd & 0xffff) as u16,
                    chunks[k].1,
                ))
        },
{
    let state = match &sock.tcb {
        Some(t) => t.state,
        None => TcpState::Closed,
    };
    if state != TcpState::Established {
        return Err(NetError::NotConnected);
    }
    let (laddr, lport) = match sock.local {
        Some(lp) => lp,
        None => {
            proof {
                assert(false);
            }
            (Ipv4Addr::from_u32(0), 0)
        },
    };
    let (raddr, rport) = match sock.remote {
        Some(rp) => rp,
        None => {
            proof {
                assert(false);
            }
            (Ipv4Addr::from_u32(0), 0)
        },
    };
    let mut t = match sock.tcb.take() {
        Some(t) => t,
        None => {
            proof {
                assert(false);
            }
            Tcb::new()
        },
    };
    let in_flight = wrap_sub(t.snd_nxt, t.snd_una);
    let usable: u32 = if t.snd_wnd > in_flight {
        t.snd_wnd - in_flight
    } else {
        0
    };
    if usable == 0 && data.len() > 0 {
        sock.tcb = Some(t);
        proof {
            assert(*sock == *old(sock));
        }
        return Err(NetError::WouldBlock);
    }
    let sent: usize = if data.len() as u64 <= usable as u64 {
        data.len()
    } else {
        usable as usize
    };
    let window: u16 = (t.rcv_wnd & 0xffff) as u16;
    let rcv_nxt = t.rcv_nxt;
    let ghost start_seq = t.snd_nxt;
    let ghost all_chunks = spec_chunks(data@.take(sent as int), start_seq);
    let ghost rtx0 = spec_rtx_model(t.rtx_queue@);
    let ghost out0 = out@;
    let mut off: usize = 0;
    proof {
        assert(data@.take(sent as int).skip(0) =~= data@.take(sent as int));
    }
    while off < sent
        invariant
            off <= sent,
            (off as int) % (TCP_MSS as int) == 0 || off == sent,
            sent <= data@.len(),
            sent <= 0xffffffff,
            t.snd_nxt == spec_wrap_add(start_seq, off as u32),
            spec_chunks(data@.take(sent as int), start_seq) == spec_chunks(
                data@.take(sent as int).take(off as int),
                start_seq,
            ) + spec_chunks(data@.take(sent as int).skip(off as int), t.snd_nxt),
            spec_rtx_model(t.rtx_queue@) == rtx0 + spec_chunks(
                data@.take(sent as int).take(off as int),
                start_seq,
            ),
            out@.len() == out0.len() + spec_chunks(
                data@.take(sent as int).take(off as int),
                start_seq,
            ).len(),
            forall|k: int|
                0 <= k < spec_chunks(data@.take(sent as int).take(off as int), start_seq).len()
                    ==> (#[trigger] out@[out0.len() + k])@ == spec_tcp_segment_bytes(
                    laddr,
                    raddr,
                    lport,
                    rport,
                    spec_chunks(data@.take(sent as int).take(off as int), start_seq)[k].0,
                    rcv_nxt,
                    (TCP_ACK | TCP_PSH) as u8,
                    window,
                    spec_chunks(data@.take(sent as int).take(off as int), start_seq)[k].1,
                ),
            forall|j: int| 0 <= j < out0.len() ==> out@[j] == out0[j],
            forall|k: int|
                0 <= k < t.rtx_queue@.len() ==> (#[trigger] t.rtx_queue@[k]).data@.len() <= 0xffff,
            t.state == TcpState::Established,
            t.snd_una == old(sock).tcb->0.snd_una,
            t.rcv_nxt == rcv_nxt,
            t.rcv_wnd == old(sock).tcb->0.rcv_wnd,
            t.iss == old(sock).tcb->0.iss,
            t.irs == old(sock).tcb->0.irs,
            t.snd_wnd == old(sock).tcb->0.snd_wnd,
        decreases sent - off,
    {
        let chunk_len: usize = if sent - off >= TCP_MSS {
            TCP_MSS
        } else {
            sent - off
        };
        let chunk = vstd::slice::slice_subrange(data, off, off + chunk_len);
        let seg = build_tcp_segment(
            laddr,
            raddr,
            lport,
            rport,
            t.snd_nxt,
            rcv_nxt,
            TCP_ACK | TCP_PSH,
            window,
            chunk,
        );
        let entry = RtxEntry { seq: t.snd_nxt, data: copy_bytes_slice(chunk) };
        let ghost rest = data@.take(sent as int).skip(off as int);
        proof {
            assert(rest.len() == sent - off);
            assert(chunk@ =~= rest.take(chunk_len as int));
            assert(rest.skip(chunk_len as int) =~= data@.take(sent as int).skip(
                off + chunk_len,
            ));
            assert(spec_chunks(rest, t.snd_nxt) =~~= seq![(t.snd_nxt, chunk@)] + spec_chunks(
                data@.take(sent as int).skip(off + chunk_len),
                spec_wrap_add(t.snd_nxt, chunk_len as u32),
            ));
            assert(data@.take(sent as int).take(off + chunk_len).take(off as int) =~= data@.take(
                sent as int,
            ).take(off as int));
            assert(data@.take(sent as int).take(off + chunk_len).skip(off as int) =~= chunk@);
            assert(spec_chunks(data@.take(sent as int).take(off + chunk_len), start_seq)
                =~~= spec_chunks(data@.take(sent as int).take(off as int), start_seq) + seq![
                (t.snd_nxt, chunk@),
            ]) by {
                assert(spec_chunks(chunk@, t.snd_nxt) =~~= seq![(t.snd_nxt, chunk@)]) by {
                    assert(chunk@.len() == chunk_len);
                    assert(chunk@.take(chunk_len as int) =~= chunk@);
                    assert(chunk@.skip(chunk_len as int) =~= Seq::<u8>::empty());
                    assert(spec_chunks(
                        chunk@.skip(chunk_len as int),
                        spec_wrap_add(t.snd_nxt, chunk_len as u32),
                    ) =~~= Seq::<(u32, Seq<u8>)>::empty());
                    assert(spec_chunks(chunk@, t.snd_nxt) =~~= seq![
                        (t.snd_nxt, chunk@.take(chunk_len as int)),
                    ] + spec_chunks(
                        chunk@.skip(chunk_len as int),
                        spec_wrap_add(t.snd_nxt, chunk_len as u32),
                    ));
                };
                assert(data@.take(sent as int).take(off as int) + chunk@ =~= data@.take(
                    sent as int,
                ).take(off + chunk_len));
                lemma_chunks_concat(
                    data@.take(sent as int).take(off as int),
                    chunk@,
                    start_seq,
                );
            };
            assert(spec_chunks(data@.take(sent as int), start_seq) =~~= spec_chunks(
                data@.take(sent as int).take(off + chunk_len),
                start_seq,
            ) + spec_chunks(
                data@.take(sent as int).skip(off + chunk_len),
                spec_wrap_add(t.snd_nxt, chunk_len as u32),
            ));
            assert(spec_rtx_model(t.rtx_queue@.push(entry)) =~~= spec_rtx_model(t.rtx_queue@)
                + seq![(t.snd_nxt, chunk@)]);
        }
        t.rtx_queue.push(entry);
        out.push(seg);
        t.snd_nxt = wrap_add(t.snd_nxt, chunk_len as u32);
        off = off + chunk_len;
    }
    proof {
        assert(data@.take(sent as int).take(sent as int) =~= data@.take(sent as int));
        assert(data@.take(sent as int).skip(sent as int) =~= Seq::<u8>::empty());
    }
    sock.tcb = Some(t);
    Ok(sent)
}

/// Slicing a concatenation whose first part is chunk-aligned equals the
/// first part's chunks followed by the rest's, continuing the sequence
/// numbers.
proof fn lemma_chunks_concat(a: Seq<u8>, b: Seq<u8>, seq0: u32)
    requires
        (a.len() as int) % (TCP_MSS as int) == 0 || b.len() == 0,
        a.len() + b.len() <= 0xffffffff,
    ensures
        spec_chunks(a + b, seq0) == spec_chunks(a, seq0) + spec_chunks(
            b,
            spec_wrap_add(seq0, a.len() as u32),
        ),
    decreases a.len(),
{
    if a.len() == 0 {
        assert(a + b =~= b);
        assert(spec_wrap_add(seq0, 0) == seq0);
        assert(spec_chunks(a, seq0) =~~= Seq::<(u32, Seq<u8>)>::empty());
        assert(spec_chunks(a + b, seq0) =~~= spec_chunks(a, seq0) + spec_chunks(b, seq0));
    } else if b.len() == 0 {
        assert(a + b =~= a);
        assert(spec_chunks(b, spec_wrap_add(seq0, a.len() as u32)) =~~= Seq::<(u32, Seq<u8>)>::empty());
        assert(spec_chunks(a + b, seq0) =~~= spec_chunks(a, seq0) + spec_chunks(
            b,
            spec_wrap_add(seq0, a.len() as u32),
        ));
    } else {
        let take: int = TCP_MSS as int;
        assert(a.len() >= take) by {
            assert((a.len() as int) % (TCP_MSS as int) == 0 && a.len() > 0);
        };
        assert((a + b).len() >= take);
        assert((a + b).take(take) =~= a.take(take));
        assert((a + b).skip(take) =~= a.skip(take) + b);
        assert((a.skip(take).len() as int) % (TCP_MSS as int) == 0) by {
            assert(a.skip(take).len() == a.len() - take);
        };
        lemma_chunks_concat(a.skip(take), b, spec_wrap_add(seq0, take as u32));
        assert(spec_wrap_add(spec_wrap_add(seq0, take as u32), a.skip(take).len() as u32)
            == spec_wrap_add(seq0, a.len() as u32));
        assert(spec_chunks(a + b, seq0) =~~= spec_chunks(a, seq0) + spec_chunks(
            b,
            spec_wrap_add(seq0, a.len() as u32),
        ));
    }
}

/// A built segment parses back to its inputs: the header fields survive
/// the trip through the wire layout (the checksum bytes land outside
/// every parsed field) and the payload follows the 20-byte header.
pub proof fn lemma_segment_parse_roundtrip(
    src: Ipv4Addr,
    dst: Ipv4Addr,
    src_port: u16,
    dst_port: u16,
    seq: u32,
    ack: u32,
    flags: u8,
    window: u16,
    payload: Seq<u8>,
)
    ensures
        ({
            let b = spec_tcp_segment_bytes(
                src,
                dst,
                src_port,
                dst_port,
                seq,
                ack,
                flags,
                window,
                payload,
            );
            &&& crate::tcp::spec_parse_hdr(b) == (crate::tcp::TcpHdr {
                source_port: src_port,
                dest_port: dst_port,
                seq,
                ack_seq: ack,
                data_offset: 20,
                flags,
                window,
            })
            &&& b.skip(20) == payload
        }),
{
    let base = spec_segment_zero_cksum(src_port, dst_port, seq, ack, flags, window, payload);
    let b = spec_tcp_segment_bytes(src, dst, src_port, dst_port, seq, ack, flags, window, payload);
    assert(b.skip(20) =~= payload);
    assert(crate::ethernet::spec_be16((src_port >> 8) as u8, (src_port & 0xff) as u8) == src_port)
        by (bit_vector);
    assert(crate::ethernet::spec_be16((dst_port >> 8) as u8, (dst_port & 0xff) as u8) == dst_port)
        by (bit_vector);
    assert(crate::ethernet::spec_be16((window >> 8) as u8, (window & 0xff) as u8) == window)
        by (bit_vector);
    assert(crate::tcp::spec_be32(
        (seq >> 24) as u8,
        ((seq >> 16) & 0xff) as u8,
        ((seq >> 8) & 0xff) as u8,
        (seq & 0xff) as u8,
    ) == seq) by (bit_vector);
    assert(crate::tcp::spec_be32(
        (ack >> 24) as u8,
        ((ack >> 16) & 0xff) as u8,
        ((ack >> 8) & 0xff) as u8,
        (ack & 0xff) as u8,
    ) == ack) by (bit_vector);
    assert(((0x50u8 >> 4) as usize) * 4 == 20) by (bit_vector);
}

} // verus!
