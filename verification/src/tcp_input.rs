//! TCP input: per-state processing of received segments.
//!
//! Each `process_*` function consumes one segment for a socket in the
//! corresponding state and returns the actions the caller must perform:
//! segments to emit and wait queues to wake. `tcp_rcv` is the entry
//! point: it validates a segment from a packet buffer, finds the
//! connection by its four-tuple and dispatches on the state.

use vstd::prelude::*;

use crate::skb::SkBuff;
use crate::socket::{Socket, SocketTable, spec_sock_wf, spec_table_wf};
use crate::tcp::{
    Tcb,
    TcpFourTuple,
    TcpHdr,
    TcpState,
    TCP_ACK,
    TCP_FIN,
    TCP_HLEN_MIN,
    TCP_RST,
    TCP_SYN,
    rtx_drop_acked,
    spec_has_flag,
    spec_ooo_model,
    spec_ooo_remove,
    spec_parse_hdr,
    spec_rtx_after_ack,
    spec_rtx_model,
    spec_tcp_checksum,
    spec_wrap_add,
    spec_wrap_sub,
    tcp_checksum,
    tcp_hdr_parse,
    wrap_add,
    wrap_sub,
};

verus! {

/// ECONNREFUSED: the peer refused the connection.
pub const ECONNREFUSED: i32 = 111;

/// ECONNRESET: the peer reset the connection.
pub const ECONNRESET: i32 = 104;

/// What the caller must do after a segment was processed: emit control
/// segments and wake wait queues.
#[derive(Clone, Copy, PartialEq, Eq, Structural, Debug)]
pub struct TcpActions {
    /// Emit an (possibly duplicate) ACK segment.
    pub send_ack: bool,
    /// Emit an RST segment.
    pub send_rst: bool,
    /// Wake the connect wait queue.
    pub wake_connect: bool,
    /// Wake readers.
    pub wake_rx: bool,
    /// Wake writers.
    pub wake_tx: bool,
    /// Wake every wait queue.
    pub wake_all: bool,
}

impl TcpActions {
    /// No actions.
    pub fn none() -> (r: TcpActions)
        ensures
            r == spec_no_actions(),
    {
        TcpActions {
            send_ack: false,
            send_rst: false,
            wake_connect: false,
            wake_rx: false,
            wake_tx: false,
            wake_all: false,
        }
    }
}

/// No actions.
pub open spec fn spec_no_actions() -> TcpActions {
    TcpActions {
        send_ack: false,
        send_rst: false,
        wake_connect: false,
        wake_rx: false,
        wake_tx: false,
        wake_all: false,
    }
}

/// The state a connection moves to on receiving a segment, following the
/// per-state input table.
pub open spec fn spec_next_state(t: Tcb, hdr: TcpHdr, payload_len: int) -> TcpState {
    let rst = spec_has_flag(hdr.flags, TCP_RST);
    let ack = spec_has_flag(hdr.flags, TCP_ACK);
    let syn = spec_has_flag(hdr.flags, TCP_SYN);
    let fin = spec_has_flag(hdr.flags, TCP_FIN);
    match t.state {
        TcpState::SynSent => if ack && hdr.ack_seq == t.snd_nxt {
            if rst {
                TcpState::Closed
            } else if syn {
                TcpState::Established
            } else {
                TcpState::SynSent
            }
        } else {
            TcpState::SynSent
        },
        TcpState::Established => if rst {
            TcpState::Closed
        } else if fin {
            TcpState::CloseWait
        } else {
            TcpState::Established
        },
        TcpState::FinWait1 => if rst {
            TcpState::Closed
        } else {
            let ackd = ack && hdr.ack_seq == t.snd_nxt;
            if fin {
                if ackd {
                    TcpState::TimeWait
                } else {
                    TcpState::Closing
                }
            } else {
                if ackd {
                    TcpState::FinWait2
                } else {
                    TcpState::FinWait1
                }
            }
        },
        TcpState::FinWait2 => if fin {
            TcpState::TimeWait
        } else {
            TcpState::FinWait2
        },
        TcpState::CloseWait => if rst {
            TcpState::Closed
        } else {
            TcpState::CloseWait
        },
        TcpState::LastAck => if ack {
            TcpState::Closed
        } else {
            TcpState::LastAck
        },
        _ => t.state,
    }
}

/// The transitions the state table allows for one received segment:
/// staying put, the table's forward edges, or a direct reset to Closed.
pub open spec fn spec_transition_allowed(pre: TcpState, post: TcpState, rst: bool) -> bool {
    ||| post == pre
    ||| (rst && post == TcpState::Closed)
    ||| (pre == TcpState::SynSent && post == TcpState::Established)
    ||| (pre == TcpState::Established && post == TcpState::CloseWait)
    ||| (pre == TcpState::FinWait1 && (post == TcpState::FinWait2 || post == TcpState::Closing
        || post == TcpState::TimeWait))
    ||| (pre == TcpState::FinWait2 && post == TcpState::TimeWait)
    ||| (pre == TcpState::LastAck && post == TcpState::Closed)
}

/// Every state change a received segment causes follows the state table:
/// no transition bypasses the intermediate states, except the direct
/// move to Closed on a reset.
pub proof fn lemma_tcp_transition_table(t: Tcb, hdr: TcpHdr, payload_len: int)
    ensures
        spec_transition_allowed(
            t.state,
            spec_next_state(t, hdr, payload_len),
            spec_has_flag(hdr.flags, TCP_RST),
        ),
{
}

/// What processing a segment in SynSent leaves behind. An acceptable ACK
/// must match `SND.NXT` exactly; a reset then refuses the connection, a
/// SYN+ACK completes the handshake, records the peer's numbers and
/// window, answers with an ACK and wakes the connect waiter. A wrong ACK
/// is answered with a reset and dropped.
pub open spec fn spec_syn_sent_post(
    o: Socket,
    n: Socket,
    acts: TcpActions,
    hdr: TcpHdr,
    payload: Seq<u8>,
) -> bool {
    let t = o.tcb->0;
    let rst = spec_has_flag(hdr.flags, TCP_RST);
    let ack = spec_has_flag(hdr.flags, TCP_ACK);
    let syn = spec_has_flag(hdr.flags, TCP_SYN);
    if ack && hdr.ack_seq != t.snd_nxt {
        n == o && acts == (TcpActions { send_rst: !rst, ..spec_no_actions() })
    } else if ack && rst {
        &&& n == (Socket {
            tcb: Some(Tcb { state: TcpState::Closed, ..t }),
            error: ECONNREFUSED,
            ..o
        })
        &&& acts == (TcpActions { wake_connect: true, ..spec_no_actions() })
    } else if ack && syn {
        &&& n == (Socket {
            tcb: Some(
                Tcb {
                    state: TcpState::Established,
                    irs: hdr.seq,
                    rcv_nxt: spec_wrap_add(hdr.seq, 1),
                    snd_una: hdr.ack_seq,
                    snd_wnd: hdr.window as u32,
                    ..t
                },
            ),
            ..o
        })
        &&& acts == (TcpActions { send_ack: true, wake_connect: true, ..spec_no_actions() })
    } else {
        n == o && acts == spec_no_actions()
    }
}

/// Process a segment for a socket in SynSent.
pub fn process_syn_sent(sock: &mut Socket, hdr: &TcpHdr, payload: &[u8]) -> (acts: TcpActions)
    requires
        old(sock).tcb is Some,
        old(sock).tcb->0.state == TcpState::SynSent,
    ensures
        spec_syn_sent_post(*old(sock), *final(sock), acts, *hdr, payload@),
        final(sock).tcb is Some,
        final(sock).tcb->0.state == spec_next_state(old(sock).tcb->0, *hdr, payload@.len() as int),
        spec_sock_wf(*old(sock)) ==> spec_sock_wf(*final(sock)),
{
    let mut acts = TcpActions::none();
    if !hdr.has_flag(TCP_ACK) {
        return acts;
    }
    let tcb = match &sock.tcb {
        Some(t) => t,
        None => {
            return acts;
        },
    };
    let snd_nxt = tcb.snd_nxt;
    if hdr.ack_seq != snd_nxt {
        if !hdr.has_flag(TCP_RST) {
            acts.send_rst = true;
        }
        return acts;
    }
    if hdr.has_flag(TCP_RST) {
        let mut t = take_tcb(sock);
        t.state = TcpState::Closed;
        sock.tcb = Some(t);
        sock.error = ECONNREFUSED;
        acts.wake_connect = true;
        return acts;
    }
    if hdr.has_flag(TCP_SYN) {
        let mut t = take_tcb(sock);
        t.irs = hdr.seq;
        t.rcv_nxt = wrap_add(hdr.seq, 1);
        t.snd_una = hdr.ack_seq;
        t.snd_wnd = hdr.window as u32;
        t.state = TcpState::Established;
        sock.tcb = Some(t);
        acts.send_ack = true;
        acts.wake_connect = true;
        return acts;
    }
    acts
}

/// Move the control block out of the socket; the caller puts it back.
fn take_tcb(sock: &mut Socket) -> (t: Tcb)
    requires
        old(sock).tcb is Some,
    ensures
        t == old(sock).tcb->0,
        *final(sock) == (Socket { tcb: None, ..*old(sock) }),
{
    let t = sock.tcb.take();
    match t {
        Some(tcb) => tcb,
        None => {
            proof {
                assert(false);
            }
            Tcb::new()
        },
    }
}

/// What processing a segment in Established leaves behind, composing the
/// acknowledgment, data and FIN phases. An acceptable acknowledgment
/// (at most `SND.NXT`, in modular space) advances `SND.UNA`, drops the
/// acknowledged retransmit prefix, adopts the advertised window and
/// wakes writers. In-order data is appended to the receive queue,
/// advances `RCV.NXT`, is acknowledged and wakes readers; data up to
/// half the sequence space ahead is stored in the out-of-order queue
/// and answered with a duplicate ACK; older data is dropped. A FIN
/// consumes one sequence number, moves to CloseWait, is acknowledged,
/// marks end of stream and wakes readers. A reset moves straight to
/// Closed with ECONNRESET and wakes everyone.
pub open spec fn spec_established_post(
    o: Socket,
    n: Socket,
    acts: TcpActions,
    hdr: TcpHdr,
    payload: Seq<u8>,
) -> bool {
    let t = o.tcb->0;
    let rst = spec_has_flag(hdr.flags, TCP_RST);
    let ack = spec_has_flag(hdr.flags, TCP_ACK);
    let fin = spec_has_flag(hdr.flags, TCP_FIN);
    if rst {
        &&& n == (Socket {
            tcb: Some(Tcb { state: TcpState::Closed, ..t }),
            error: ECONNRESET,
            ..o
        })
        &&& acts == (TcpActions { wake_all: true, ..spec_no_actions() })
    } else {
        let ack_ok = ack && spec_wrap_sub(hdr.ack_seq, t.snd_una) <= spec_wrap_sub(
            t.snd_nxt,
            t.snd_una,
        );
        let inorder = payload.len() > 0 && hdr.seq == t.rcv_nxt;
        let future = payload.len() > 0 && hdr.seq != t.rcv_nxt && spec_wrap_sub(hdr.seq, t.rcv_nxt)
            < 0x80000000;
        let rcv1 = if inorder {
            spec_wrap_add(t.rcv_nxt, payload.len() as u32)
        } else {
            t.rcv_nxt
        };
        &&& n.tcb is Some
        &&& n.tcb->0.state == if fin {
            TcpState::CloseWait
        } else {
            TcpState::Established
        }
        &&& n.tcb->0.snd_una == if ack_ok {
            hdr.ack_seq
        } else {
            t.snd_una
        }
        &&& n.tcb->0.snd_wnd == if ack_ok {
            hdr.window as u32
        } else {
            t.snd_wnd
        }
        &&& spec_rtx_model(n.tcb->0.rtx_queue@) == if ack_ok {
            spec_rtx_after_ack(spec_rtx_model(t.rtx_queue@), hdr.ack_seq)
        } else {
            spec_rtx_model(t.rtx_queue@)
        }
        &&& n.tcb->0.rcv_nxt == if fin {
            spec_wrap_add(rcv1, 1)
        } else {
            rcv1
        }
        &&& n.rx_buf@ == if inorder {
            o.rx_buf@ + payload
        } else {
            o.rx_buf@
        }
        &&& spec_ooo_model(n.tcb->0.ooo_queue@) == if future {
            spec_ooo_remove(spec_ooo_model(t.ooo_queue@), hdr.seq).push((hdr.seq, payload))
        } else {
            spec_ooo_model(t.ooo_queue@)
        }
        &&& n.tcb->0.snd_nxt == t.snd_nxt && n.tcb->0.iss == t.iss && n.tcb->0.irs == t.irs
            && n.tcb->0.rcv_wnd == t.rcv_wnd
        &&& n.eof == (o.eof || fin)
        &&& n.error == o.error && n.local == o.local && n.remote == o.remote && n.family == o.family
            && n.stype == o.stype && n.protocol == o.protocol && n.nonblocking == o.nonblocking
            && n.tx_buf@ == o.tx_buf@
        &&& acts == (TcpActions {
            send_ack: inorder || future || fin,
            send_rst: false,
            wake_connect: false,
            wake_rx: inorder || fin,
            wake_tx: ack_ok,
            wake_all: false,
        })
    }
}

/// Process a segment for a socket in Established.
#[verifier::loop_isolation(false)]
pub fn process_established(sock: &mut Socket, hdr: &TcpHdr, payload: &[u8]) -> (acts: TcpActions)
    requires
        old(sock).tcb is Some,
        old(sock).tcb->0.state == TcpState::Established,
        spec_sock_wf(*old(sock)),
        payload@.len() <= 0xffff,
    ensures
        spec_established_post(*old(sock), *final(sock), acts, *hdr, payload@),
        final(sock).tcb is Some,
        final(sock).tcb->0.state == spec_next_state(old(sock).tcb->0, *hdr, payload@.len() as int),
        spec_sock_wf(*final(sock)),
{
    let mut acts = TcpActions::none();
    if hdr.has_flag(TCP_RST) {
        let mut t = take_tcb(sock);
        t.state = TcpState::Closed;
        sock.tcb = Some(t);
        sock.error = ECONNRESET;
        acts.wake_all = true;
        return acts;
    }
    let mut t = take_tcb(sock);
    if hdr.has_flag(TCP_ACK) {
        let una_off = wrap_sub(hdr.ack_seq, t.snd_una);
        let nxt_off = wrap_sub(t.snd_nxt, t.snd_una);
        if una_off <= nxt_off {
            t.snd_una = hdr.ack_seq;
            let kept = rtx_drop_acked(&t.rtx_queue, hdr.ack_seq);
            t.rtx_queue = kept;
            t.snd_wnd = hdr.window as u32;
            acts.wake_tx = true;
        }
    }
    if payload.len() > 0 {
        if hdr.seq == t.rcv_nxt {
            sock.deliver_data(payload);
            t.rcv_nxt = wrap_add(t.rcv_nxt, payload.len() as u32);
            acts.send_ack = true;
            acts.wake_rx = true;
        } else if wrap_sub(hdr.seq, t.rcv_nxt) < 0x80000000 {
            let cleaned = ooo_remove_key(&t.ooo_queue, hdr.seq);
            t.ooo_queue = cleaned;
            t.ooo_queue.push((hdr.seq, crate::tcp::copy_bytes_slice(payload)));
            proof {
                assert(spec_ooo_model(t.ooo_queue@) =~= spec_ooo_remove(
                    spec_ooo_model(old(sock).tcb->0.ooo_queue@),
                    hdr.seq,
                ).push((hdr.seq, payload@)));
            }
            acts.send_ack = true;
        }
    }
    if hdr.has_flag(TCP_FIN) {
        t.rcv_nxt = wrap_add(t.rcv_nxt, 1);
        t.state = TcpState::CloseWait;
        acts.send_ack = true;
        sock.eof = true;
        acts.wake_rx = true;
    }
    sock.tcb = Some(t);
    acts
}

/// The out-of-order queue with every entry under `key` removed.
#[verifier::loop_isolation(false)]
pub fn ooo_remove_key(q: &Vec<(u32, Vec<u8>)>, key: u32) -> (r: Vec<(u32, Vec<u8>)>)
    ensures
        spec_ooo_model(r@) == spec_ooo_remove(spec_ooo_model(q@), key),
{
    let mut out: Vec<(u32, Vec<u8>)> = Vec::new();
    let mut i: usize = 0;
    while i < q.len()
        invariant
            i <= q@.len(),
            spec_ooo_model(out@) == spec_ooo_remove(spec_ooo_model(q@.take(i as int)), key),
        decreases q@.len() - i,
    {
        let e = &q[i];
        proof {
            assert(spec_ooo_model(q@.take(i + 1)).drop_last() =~= spec_ooo_model(
                q@.take(i as int),
            ));
            assert(spec_ooo_model(q@.take(i + 1)).last() == (q@[i as int].0, q@[i as int].1@));
        }
        if e.0 != key {
            let copied = (e.0, crate::tcp::copy_bytes(&e.1));
            out.push(copied);
            proof {
                assert(spec_ooo_model(out@) =~= spec_ooo_remove(
                    spec_ooo_model(q@.take(i + 1)),
                    key,
                ));
            }
        }
        i = i + 1;
    }
    proof {
        assert(q@.take(q@.len() as int) =~= q@);
    }
    out
}

/// What processing a segment in FinWait1 leaves behind: a reset closes;
/// an ACK of our FIN moves to FinWait2; the peer's FIN consumes one
/// sequence number, moves to TimeWait when our FIN was acknowledged in
/// the same segment and to Closing otherwise, is acknowledged, marks end
/// of stream and wakes readers.
pub open spec fn spec_fin_wait1_post(
    o: Socket,
    n: Socket,
    acts: TcpActions,
    hdr: TcpHdr,
    payload: Seq<u8>,
) -> bool {
    let t = o.tcb->0;
    let rst = spec_has_flag(hdr.flags, TCP_RST);
    let ack = spec_has_flag(hdr.flags, TCP_ACK);
    let fin = spec_has_flag(hdr.flags, TCP_FIN);
    let ackd = ack && hdr.ack_seq == t.snd_nxt;
    if rst {
        &&& n == (Socket { tcb: Some(Tcb { state: TcpState::Closed, ..t }), ..o })
        &&& acts == (TcpActions { wake_all: true, ..spec_no_actions() })
    } else if fin {
        &&& n == (Socket {
            tcb: Some(
                Tcb {
                    state: if ackd {
                        TcpState::TimeWait
                    } else {
                        TcpState::Closing
                    },
                    rcv_nxt: spec_wrap_add(t.rcv_nxt, 1),
                    ..t
                },
            ),
            eof: true,
            ..o
        })
        &&& acts == (TcpActions { send_ack: true, wake_rx: true, ..spec_no_actions() })
    } else {
        &&& n == (Socket {
            tcb: Some(
                Tcb {
                    state: if ackd {
                        TcpState::FinWait2
                    } else {
                        TcpState::FinWait1
                    },
                    ..t
                },
            ),
            ..o
        })
        &&& acts == spec_no_actions()
    }
}

/// Process a segment for a socket in FinWait1.
pub fn process_fin_wait1(sock: &mut Socket, hdr: &TcpHdr, payload: &[u8]) -> (acts: TcpActions)
    requires
        old(sock).tcb is Some,
        old(sock).tcb->0.state == TcpState::FinWait1,
    ensures
        spec_fin_wait1_post(*old(sock), *final(sock), acts, *hdr, payload@),
        final(sock).tcb is Some,
        final(sock).tcb->0.state == spec_next_state(old(sock).tcb->0, *hdr, payload@.len() as int),
        spec_sock_wf(*old(sock)) ==> spec_sock_wf(*final(sock)),
{
    let mut acts = TcpActions::none();
    if hdr.has_flag(TCP_RST) {
        let mut t = take_tcb(sock);
        t.state = TcpState::Closed;
        sock.tcb = Some(t);
        acts.wake_all = true;
        return acts;
    }
    let mut t = take_tcb(sock);
    if hdr.has_flag(TCP_ACK) {
        if hdr.ack_seq == t.snd_nxt {
            t.state = TcpState::FinWait2;
        }
    }
    if hdr.has_flag(TCP_FIN) {
        t.rcv_nxt = wrap_add(t.rcv_nxt, 1);
        if t.state == TcpState::FinWait2 {
            t.state = TcpState::TimeWait;
        } else {
            t.state = TcpState::Closing;
        }
        acts.send_ack = true;
        sock.eof = true;
        acts.wake_rx = true;
    }
    sock.tcb = Some(t);
    acts
}

/// What processing a segment in FinWait2 leaves behind: the peer's FIN
/// consumes one sequence number, moves to TimeWait, is acknowledged,
/// marks end of stream and wakes everyone.
pub open spec fn spec_fin_wait2_post(
    o: Socket,
    n: Socket,
    acts: TcpActions,
    hdr: TcpHdr,
    payload: Seq<u8>,
) -> bool {
    let t = o.tcb->0;
    let fin = spec_has_flag(hdr.flags, TCP_FIN);
    if fin {
        &&& n == (Socket {
            tcb: Some(
                Tcb { state: TcpState::TimeWait, rcv_nxt: spec_wrap_add(t.rcv_nxt, 1), ..t },
            ),
            eof: true,
            ..o
        })
        &&& acts == (TcpActions { send_ack: true, wake_all: true, ..spec_no_actions() })
    } else {
        n == o && acts == spec_no_actions()
    }
}

/// Process a segment for a socket in FinWait2.
pub fn process_fin_wait2(sock: &mut Socket, hdr: &TcpHdr, payload: &[u8]) -> (acts: TcpActions)
    requires
        old(sock).tcb is Some,
        old(sock).tcb->0.state == TcpState::FinWait2,
    ensures
        spec_fin_wait2_post(*old(sock), *final(sock), acts, *hdr, payload@),
        final(sock).tcb is Some,
        final(sock).tcb->0.state == spec_next_state(old(sock).tcb->0, *hdr, payload@.len() as int),
        spec_sock_wf(*old(sock)) ==> spec_sock_wf(*final(sock)),
{
    let mut acts = TcpActions::none();
    if hdr.has_flag(TCP_FIN) {
        let mut t = take_tcb(sock);
        t.rcv_nxt = wrap_add(t.rcv_nxt, 1);
        t.state = TcpState::TimeWait;
        sock.tcb = Some(t);
        acts.send_ack = true;
        sock.eof = true;
        acts.wake_all = true;
    }
    acts
}

/// What processing a segment in CloseWait leaves behind: only a reset
/// does anything, closing the connection and waking everyone.
pub open spec fn spec_close_wait_post(
    o: Socket,
    n: Socket,
    acts: TcpActions,
    hdr: TcpHdr,
) -> bool {
    let t = o.tcb->0;
    if spec_has_flag(hdr.flags, TCP_RST) {
        &&& n == (Socket { tcb: Some(Tcb { state: TcpState::Closed, ..t }), ..o })
        &&& acts == (TcpActions { wake_all: true, ..spec_no_actions() })
    } else {
        n == o && acts == spec_no_actions()
    }
}

/// Process a segment for a socket in CloseWait.
pub fn process_close_wait(sock: &mut Socket, hdr: &TcpHdr) -> (acts: TcpActions)
    requires
        old(sock).tcb is Some,
        old(sock).tcb->0.state == TcpState::CloseWait,
    ensures
        spec_close_wait_post(*old(sock), *final(sock), acts, *hdr),
        final(sock).tcb is Some,
        final(sock).tcb->0.state == spec_next_state(old(sock).tcb->0, *hdr, 0),
        spec_sock_wf(*old(sock)) ==> spec_sock_wf(*final(sock)),
{
    let mut acts = TcpActions::none();
    if hdr.has_flag(TCP_RST) {
        let mut t = take_tcb(sock);
        t.state = TcpState::Closed;
        sock.tcb = Some(t);
        acts.wake_all = true;
    }
    acts
}

/// What processing a segment in LastAck leaves behind: an ACK of our FIN
/// closes the connection and wakes everyone.
pub open spec fn spec_last_ack_post(o: Socket, n: Socket, acts: TcpActions, hdr: TcpHdr) -> bool {
    let t = o.tcb->0;
    if spec_has_flag(hdr.flags, TCP_ACK) {
        &&& n == (Socket { tcb: Some(Tcb { state: TcpState::Closed, ..t }), ..o })
        &&& acts == (TcpActions { wake_all: true, ..spec_no_actions() })
    } else {
        n == o && acts == spec_no_actions()
    }
}

/// Process a segment for a socket in LastAck.
pub fn process_last_ack(sock: &mut Socket, hdr: &TcpHdr) -> (acts: TcpActions)
    requires
        old(sock).tcb is Some,
        old(sock).tcb->0.state == TcpState::LastAck,
    ensures
        spec_last_ack_post(*old(sock), *final(sock), acts, *hdr),
        final(sock).tcb is Some,
        final(sock).tcb->0.state == spec_next_state(old(sock).tcb->0, *hdr, 0),
        spec_sock_wf(*old(sock)) ==> spec_sock_wf(*final(sock)),
{
    let mut acts = TcpActions::none();
    if hdr.has_flag(TCP_ACK) {
        let mut t = take_tcb(sock);
        t.state = TcpState::Closed;
        sock.tcb = Some(t);
        acts.wake_all = true;
    }
    acts
}

/// What one received segment does to the socket that owns its
/// connection, whatever state the connection is in. In TimeWait a
/// retransmitted FIN is re-acknowledged; Listen, SynReceived, Closing
/// and Closed leave the segment unprocessed.
pub open spec fn spec_segment_effect(
    o: Socket,
    n: Socket,
    acts: TcpActions,
    hdr: TcpHdr,
    payload: Seq<u8>,
) -> bool {
    match o.tcb->0.state {
        TcpState::SynSent => spec_syn_sent_post(o, n, acts, hdr, payload),
        TcpState::Established => spec_established_post(o, n, acts, hdr, payload),
        TcpState::FinWait1 => spec_fin_wait1_post(o, n, acts, hdr, payload),
        TcpState::FinWait2 => spec_fin_wait2_post(o, n, acts, hdr, payload),
        TcpState::CloseWait => spec_close_wait_post(o, n, acts, hdr),
        TcpState::LastAck => spec_last_ack_post(o, n, acts, hdr),
        TcpState::TimeWait => n == o && acts == (TcpActions {
            send_ack: spec_has_flag(hdr.flags, TCP_FIN),
            ..spec_no_actions()
        }),
        _ => n == o && acts == spec_no_actions(),
    }
}

/// The connection key a received segment selects: the receiver's address
/// and port are local, the sender's remote.
pub open spec fn spec_rcv_tuple(hdr: TcpHdr, saddr: crate::ipv4::Ipv4Addr, daddr: crate::ipv4::Ipv4Addr) -> TcpFourTuple {
    TcpFourTuple {
        local_addr: daddr,
        local_port: hdr.dest_port,
        remote_addr: saddr,
        remote_port: hdr.source_port,
    }
}

/// Whether a socket slot holds the connection for a four-tuple.
pub open spec fn spec_conn_matches(s: Option<Socket>, tup: TcpFourTuple) -> bool {
    &&& s is Some
    &&& s->0.local == Some((tup.local_addr, tup.local_port))
    &&& s->0.remote == Some((tup.remote_addr, tup.remote_port))
    &&& s->0.tcb is Some
}

/// Any socket change `spec_segment_effect` allows keeps to the state
/// table: whatever state the connection was in and whatever the segment
/// held, the new state is reachable in one step, with the direct move
/// to Closed reserved for resets and the final ACK of a close.
pub proof fn lemma_segment_effect_in_table(
    o: Socket,
    n: Socket,
    acts: TcpActions,
    hdr: TcpHdr,
    payload: Seq<u8>,
)
    requires
        o.tcb is Some,
        n.tcb is Some,
        spec_segment_effect(o, n, acts, hdr, payload),
    ensures
        spec_transition_allowed(
            o.tcb->0.state,
            n.tcb->0.state,
            spec_has_flag(hdr.flags, TCP_RST),
        ),
{
}

/// The four-tuple a received packet buffer's segment selects.
pub open spec fn spec_skb_tuple(skb: SkBuff) -> TcpFourTuple {
    spec_rcv_tuple(spec_parse_hdr(skb.payload()), skb.saddr->0, skb.daddr->0)
}

/// The segment payload of a received packet buffer: the bytes after the
/// TCP header.
pub open spec fn spec_skb_seg_payload(skb: SkBuff) -> Seq<u8> {
    skb.payload().skip(spec_parse_hdr(skb.payload()).data_offset as int)
}

/// A received packet buffer carries a processable segment: its addresses
/// are tagged, it holds at least a header and no more than the 16-bit
/// segment length the pseudo-header can express, the header length is
/// sane and the checksum over the pseudo-header and segment is zero.
pub open spec fn spec_rcv_valid(skb: SkBuff) -> bool {
    &&& skb.payload().len() >= 20
    &&& skb.payload().len() <= 0xffff
    &&& skb.saddr is Some
    &&& skb.daddr is Some
    &&& spec_parse_hdr(skb.payload()).data_offset >= 20
    &&& spec_parse_hdr(skb.payload()).data_offset <= skb.payload().len()
    &&& spec_tcp_checksum(skb.saddr->0, skb.daddr->0, skb.payload()) == 0
}

/// Receive a TCP segment from the IP layer. An unprocessable segment is
/// dropped silently; a processable one without a connection is answered
/// with a reset (unless it is itself a reset); otherwise the first
/// socket holding the four-tuple processes it according to its state,
/// and every other socket is untouched.
#[verifier::loop_isolation(false)]
pub fn tcp_rcv(table: &mut SocketTable, skb: &SkBuff) -> (acts: TcpActions)
    requires
        skb.wf(),
        spec_table_wf(*old(table)),
    ensures
        spec_table_wf(*final(table)),
        final(table).sockets@.len() == old(table).sockets@.len(),
        !spec_rcv_valid(*skb) ==> *final(table) == *old(table) && acts == spec_no_actions(),
        spec_rcv_valid(*skb) && (forall|j: int|
            0 <= j < old(table).sockets@.len() ==> !spec_conn_matches(
                #[trigger] old(table).sockets@[j],
                spec_skb_tuple(*skb),
            )) ==> *final(table) == *old(table) && acts == (TcpActions {
            send_rst: !spec_has_flag(spec_parse_hdr(skb.payload()).flags, TCP_RST),
            ..spec_no_actions()
        }),
        spec_rcv_valid(*skb) ==> (exists|i: int|
            {
                &&& 0 <= i < old(table).sockets@.len()
                &&& #[trigger] spec_conn_matches(old(table).sockets@[i], spec_skb_tuple(*skb))
                &&& (forall|j: int|
                    0 <= j < i ==> !spec_conn_matches(
                        old(table).sockets@[j],
                        spec_skb_tuple(*skb),
                    ))
                &&& final(table).sockets@[i] is Some
                &&& spec_segment_effect(
                    old(table).sockets@[i]->0,
                    final(table).sockets@[i]->0,
                    acts,
                    spec_parse_hdr(skb.payload()),
                    spec_skb_seg_payload(*skb),
                )
                &&& (forall|j: int|
                    0 <= j < old(table).sockets@.len() && j != i
                        ==> final(table).sockets@[j] == old(table).sockets@[j])
            }) || (forall|j: int|
            0 <= j < old(table).sockets@.len() ==> !spec_conn_matches(
                #[trigger] old(table).sockets@[j],
                spec_skb_tuple(*skb),
            )),
{
    let acts_none = TcpActions::none();
    let seg: Vec<u8> = skb.data();
    if seg.len() < TCP_HLEN_MIN {
        return acts_none;
    }
    if seg.len() > 0xffff {
        return acts_none;
    }
    let saddr = match skb.saddr {
        Some(a) => a,
        None => {
            return acts_none;
        },
    };
    let daddr = match skb.daddr {
        Some(a) => a,
        None => {
            return acts_none;
        },
    };
    let hdr = match tcp_hdr_parse(seg.as_slice()) {
        Some(h) => h,
        None => {
            return acts_none;
        },
    };
    if hdr.data_offset < TCP_HLEN_MIN || hdr.data_offset > seg.len() {
        return acts_none;
    }
    if tcp_checksum(saddr, daddr, seg.as_slice()) != 0 {
        return acts_none;
    }
    proof {
        assert(spec_rcv_valid(*skb));
    }
    let tuple = TcpFourTuple {
        local_addr: daddr,
        local_port: hdr.dest_port,
        remote_addr: saddr,
        remote_port: hdr.source_port,
    };
    let n: usize = table.sockets.len();
    let mut idx: usize = n;
    let mut i: usize = 0;
    while i < n
        invariant
            idx == n,
            i <= n,
            forall|j: int|
                0 <= j < i ==> !spec_conn_matches(#[trigger] table.sockets@[j], tuple),
        decreases n - i,
    {
        let found = match &table.sockets[i] {
            Some(s) => {
                let local_ok = match s.local {
                    Some((a, p)) => a == tuple.local_addr && p == tuple.local_port,
                    None => false,
                };
                let remote_ok = match s.remote {
                    Some((a, p)) => a == tuple.remote_addr && p == tuple.remote_port,
                    None => false,
                };
                local_ok && remote_ok && s.tcb.is_some()
            },
            None => false,
        };
        if found {
            idx = i;
            break ;
        }
        i = i + 1;
    }
    if idx == n {
        let mut acts = TcpActions::none();
        if !hdr.has_flag(TCP_RST) {
            acts.send_rst = true;
        }
        proof {
            assert(forall|j: int|
                0 <= j < old(table).sockets@.len() ==> !spec_conn_matches(
                    #[trigger] old(table).sockets@[j],
                    tuple,
                ));
        }
        return acts;
    }
    proof {
        assert(spec_conn_matches(table.sockets@[idx as int], tuple));
    }
    let payload = vstd::slice::slice_subrange(seg.as_slice(), hdr.data_offset, seg.len());
    proof {
        assert(payload@ =~= skb.payload().skip(hdr.data_offset as int));
    }
    let ghost old_sockets = table.sockets@;
    let slot = &mut table.sockets[idx];
    let acts = match slot {
        Some(s) => {
            let state = match &s.tcb {
                Some(t) => t.state,
                None => TcpState::Closed,
            };
            match state {
                TcpState::SynSent => process_syn_sent(s, &hdr, payload),
                TcpState::Established => process_established(s, &hdr, payload),
                TcpState::FinWait1 => process_fin_wait1(s, &hdr, payload),
                TcpState::FinWait2 => process_fin_wait2(s, &hdr, payload),
                TcpState::CloseWait => process_close_wait(s, &hdr),
                TcpState::LastAck => process_last_ack(s, &hdr),
                TcpState::TimeWait => {
                    let mut a = TcpActions::none();
                    if hdr.has_flag(TCP_FIN) {
                        a.send_ack = true;
                    }
                    a
                },
                _ => TcpActions::none(),
            }
        },
        None => TcpActions::none(),
    };
    proof {
        assert(table.sockets@[idx as int] is Some);
        assert(spec_segment_effect(
            old_sockets[idx as int]->0,
            table.sockets@[idx as int]->0,
            acts,
            spec_parse_hdr(skb.payload()),
            skb.payload().skip(spec_parse_hdr(skb.payload()).data_offset as int),
        ));
        assert(forall|j: int|
            0 <= j < old_sockets.len() && j != idx ==> table.sockets@[j] == old_sockets[j]);
    }
    acts
}

} // verus!
