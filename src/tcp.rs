//! The per-connection TCP state machine (RFC 793): receive-window
//! acceptability, ACK acceptability, state transitions and the assembly of
//! outbound segments.
//!
//! Segments that a connection emits are appended to an outbox (`out`) in the
//! order they are produced; the caller hands them to the network device.
use vstd::prelude::*;
use vstd::slice::slice_subrange;
use vstd::slice::slice_to_vec;
use crate::seqnum::{
    ack_in_closed_window, ack_in_window, in_window, is_ack_acceptable, is_ack_in_closed_window,
    in_wrapping_range, lemma_seq_add_mod, lemma_seq_add_twice, seq_add, seq_dist, seq_space,
    seq_wrapping_add,
};

verus! {

/// Largest datagram that one write produces.
pub const MTU: usize = 1500;

/// Length of an IPv4 header without options.
pub const IPV4_HEADER_LEN: usize = 20;

/// Length of a TCP header without options.
pub const TCP_HEADER_LEN: usize = 20;

/// IP protocol number of TCP.
pub const PROTOCOL_TCP: u8 = 6;

/// Time to live of every outbound datagram.
pub const OUTBOUND_TTL: u8 = 64;

/// Initial send sequence number.
pub const ISS: u32 = 0;

/// Send window chosen locally, also advertised in every outbound segment.
pub const LOCAL_WINDOW: u16 = 8;

/// Connection states. Closed (no record) and Listen (every unmatched SYN is
/// accepted) are implicit.
#[derive(Clone, Copy, Debug, PartialEq, Eq, Structural)]
pub enum ConnectionState {
    SynRcvd,
    Estab,
    FinWait1,
    FinWait2,
    Closing,
    TimeWait,
}

impl ConnectionState {
    /// Every state but SYN-RECEIVED has synchronized sequence numbers.
    pub fn is_synchronized(&self) -> (r: bool)
        ensures
            r == !(*self is SynRcvd),
    {
        match *self {
            ConnectionState::SynRcvd => false,
            ConnectionState::Estab => true,
            ConnectionState::FinWait1 => true,
            ConnectionState::FinWait2 => true,
            ConnectionState::Closing => true,
            ConnectionState::TimeWait => true,
        }
    }
}

/// Send sequence variables (RFC 793 section 3.2).
#[derive(Clone, Copy, Debug)]
pub struct SendSequence {
    /// Oldest unacknowledged sequence number.
    pub una: u32,
    /// Next sequence number to send.
    pub nxt: u32,
    /// Send window.
    pub wnd: u16,
    /// Urgent pointer flag.
    pub up: bool,
    /// Sequence number used for the last window update.
    pub wl1: usize,
    /// Acknowledgment number used for the last window update.
    pub wl2: usize,
    /// Initial send sequence number.
    pub iss: u32,
}

/// Receive sequence variables (RFC 793 section 3.2).
#[derive(Clone, Copy, Debug)]
pub struct RecieveSequence {
    /// Next sequence number expected from the peer.
    pub nxt: u32,
    /// Receive window.
    pub wnd: u16,
    /// Urgent pointer flag.
    pub up: bool,
    /// Initial receive sequence number.
    pub irs: u32,
}

/// The IPv4 header fields that the engine reads from incoming datagrams and
/// sets on outgoing ones (no options).
#[derive(Clone, Copy, Debug)]
pub struct Ipv4Fields {
    pub source: [u8; 4],
    pub destination: [u8; 4],
    pub time_to_live: u8,
    pub protocol: u8,
}

/// The TCP header fields that the engine reads from incoming segments and
/// sets on outgoing ones (no options).
#[derive(Clone, Copy, Debug)]
pub struct TcpFields {
    pub source_port: u16,
    pub destination_port: u16,
    pub sequence_number: u32,
    pub acknowledgment_number: u32,
    pub window_size: u16,
    pub syn: bool,
    pub ack: bool,
    pub fin: bool,
    pub rst: bool,
}

/// One segment ready to be serialized and sent.
#[derive(Debug)]
pub struct OutSegment {
    pub ip: Ipv4Fields,
    pub tcp: TcpFields,
    pub payload: Vec<u8>,
}

/// Errors that stop the connection engine.
#[derive(Clone, Copy, Debug, PartialEq, Eq, Structural)]
pub enum TcpError {
    /// A FIN arrived in a state whose handling of it is not implemented
    /// (every state but FIN-WAIT-2).
    UnimplementedTransition,
}

/// One connection: its state, its sequence variables and the prototype
/// headers of the segments it sends.
#[derive(Clone, Copy, Debug)]
pub struct TcpState {
    pub connection_state: ConnectionState,
    pub send: SendSequence,
    pub recieve: RecieveSequence,
    pub ip: Ipv4Fields,
    pub tcp: TcpFields,
}

/// 1 for a set control flag that occupies a sequence number, else 0.
pub open spec fn flag_len(b: bool) -> int {
    if b {
        1
    } else {
        0
    }
}

/// Number of payload bytes that one write carries.
pub open spec fn payload_capacity(n: int) -> int {
    if n <= (MTU - IPV4_HEADER_LEN - TCP_HEADER_LEN) as int {
        n
    } else {
        (MTU - IPV4_HEADER_LEN - TCP_HEADER_LEN) as int
    }
}

/// The TCP header of the next segment: the prototype with its sequence number
/// set to SND.NXT and its acknowledgment number to RCV.NXT.
pub open spec fn sent_header(s: TcpState) -> TcpFields {
    TcpFields {
        sequence_number: s.send.nxt,
        acknowledgment_number: s.recieve.nxt,
        ..s.tcp
    }
}

/// The connection after a write of `n` payload bytes: SND.NXT advanced by the
/// payload and by each SYN or FIN sent, and those two flags cleared.
pub open spec fn after_write(s: TcpState, n: int) -> TcpState {
    TcpState {
        send: SendSequence {
            nxt: seq_add(s.send.nxt, n + flag_len(s.tcp.syn) + flag_len(s.tcp.fin)),
            ..s.send
        },
        tcp: TcpFields { syn: false, fin: false, ..sent_header(s) },
        ..s
    }
}

/// `new` is `old` with one segment appended, sent from `s` with the given
/// payload.
pub open spec fn pushed_segment(
    old: Seq<OutSegment>,
    new: Seq<OutSegment>,
    s: TcpState,
    payload: Seq<u8>,
) -> bool {
    &&& new.len() == old.len() + 1
    &&& new.subrange(0, old.len() as int) == old
    &&& new.last().ip == s.ip
    &&& new.last().tcp == sent_header(s)
    &&& new.last().payload@ == payload
}

/// `new` is `old` with one empty segment appended for each header of `hs`.
pub open spec fn pushed_empty_segments(
    old: Seq<OutSegment>,
    new: Seq<OutSegment>,
    ip: Ipv4Fields,
    hs: Seq<TcpFields>,
) -> bool {
    &&& new.len() == old.len() + hs.len()
    &&& new.subrange(0, old.len() as int) == old
    &&& forall|i: int|
        0 <= i < hs.len() ==> {
            &&& (#[trigger] new[old.len() + i]).ip == ip
            &&& new[old.len() + i].tcp == hs[i]
            &&& new[old.len() + i].payload@.len() == 0
        }
}

impl TcpState {
    /// Emits one segment carrying as much of `payload` as fits in one MTU,
    /// with sequence number SND.NXT, acknowledgment number RCV.NXT and the
    /// prototype's flags; then advances SND.NXT by the payload sent and by one
    /// for each of SYN and FIN sent, and clears those two flags. Returns the
    /// number of payload bytes sent.
    fn write(&mut self, out: &mut Vec<OutSegment>, payload: &[u8]) -> (r: usize)
        ensures
            r == payload_capacity(payload@.len() as int),
            *final(self) == after_write(*old(self), r as int),
            pushed_segment(old(out)@, final(out)@, *old(self), payload@.subrange(0, r as int)),
    {
        self.tcp.sequence_number = self.send.nxt;
        self.tcp.acknowledgment_number = self.recieve.nxt;
        let room: usize = MTU - IPV4_HEADER_LEN - TCP_HEADER_LEN;
        let n: usize = if payload.len() <= room {
            payload.len()
        } else {
            room
        };
        let body = slice_to_vec(slice_subrange(payload, 0, n));
        out.push(OutSegment { ip: self.ip, tcp: self.tcp, payload: body });
        let ghost nxt0 = self.send.nxt;
        let mut nxt = seq_wrapping_add(self.send.nxt, n as u32);
        if self.tcp.syn {
            nxt = seq_wrapping_add(nxt, 1);
            self.tcp.syn = false;
        }
        if self.tcp.fin {
            nxt = seq_wrapping_add(nxt, 1);
            self.tcp.fin = false;
        }
        proof {
            lemma_seq_add_twice(nxt0, n as int, flag_len(old(self).tcp.syn));
            lemma_seq_add_twice(
                nxt0,
                n as int + flag_len(old(self).tcp.syn),
                flag_len(old(self).tcp.fin),
            );
        }
        self.send.nxt = nxt;
        assert(final(out)@.subrange(0, old(out)@.len() as int) =~= old(out)@);
        n
    }
}


/// The connection that `accept` creates for a SYN, before its SYN|ACK is
/// written: sequence variables initialized from the segment and the local
/// choices, prototype headers addressed back to the peer with SYN and ACK
/// staged.
pub open spec fn accepted(ip: Ipv4Fields, seg: TcpFields) -> TcpState {
    TcpState {
        connection_state: ConnectionState::SynRcvd,
        recieve: RecieveSequence {
            nxt: seq_add(seg.sequence_number, 1),
            wnd: seg.window_size,
            up: false,
            irs: seg.sequence_number,
        },
        send: SendSequence {
            una: ISS,
            nxt: ISS,
            wnd: LOCAL_WINDOW,
            up: false,
            wl1: 0,
            wl2: 0,
            iss: ISS,
        },
        ip: Ipv4Fields {
            source: ip.destination,
            destination: ip.source,
            time_to_live: OUTBOUND_TTL,
            protocol: PROTOCOL_TCP,
        },
        tcp: TcpFields {
            source_port: seg.destination_port,
            destination_port: seg.source_port,
            sequence_number: ISS,
            acknowledgment_number: 0,
            window_size: LOCAL_WINDOW,
            syn: true,
            ack: true,
            fin: false,
            rst: false,
        },
    }
}

/// Sequence space that a segment occupies: its payload, plus one for each of
/// SYN and FIN.
pub open spec fn segment_len(seg: TcpFields, n: int) -> int {
    n + flag_len(seg.syn) + flag_len(seg.fin)
}

/// Receive acceptability (RFC 793 section 3.3) of a segment with `n` payload
/// bytes against the window `[RCV.NXT, RCV.NXT + RCV.WND)`.
pub open spec fn segment_acceptable(rcv: RecieveSequence, seg: TcpFields, n: int) -> bool {
    let slen = segment_len(seg, n);
    let end = seq_add(rcv.nxt, rcv.wnd as int);
    if slen == 0 {
        if rcv.wnd == 0 {
            seg.sequence_number == rcv.nxt
        } else {
            in_window(rcv.nxt, seg.sequence_number, end)
        }
    } else {
        rcv.wnd != 0 && (in_window(rcv.nxt, seg.sequence_number, end) || in_window(
            rcv.nxt,
            seq_add(seg.sequence_number, slen - 1),
            end,
        ))
    }
}

/// After an acceptable segment RCV.NXT moves past it.
pub open spec fn after_receive(s: TcpState, seg: TcpFields, n: int) -> TcpState {
    TcpState {
        recieve: RecieveSequence {
            nxt: seq_add(seg.sequence_number, segment_len(seg, n)),
            ..s.recieve
        },
        ..s
    }
}

/// SYN-RECEIVED moves to ESTABLISHED on an ACK with `SND.UNA <= ACK <= SND.NXT`.
pub open spec fn after_handshake_ack(s: TcpState, seg: TcpFields) -> TcpState {
    if s.connection_state is SynRcvd && ack_in_closed_window(
        s.send.una,
        seg.acknowledgment_number,
        s.send.nxt,
    ) {
        TcpState { connection_state: ConnectionState::Estab, ..s }
    } else {
        s
    }
}

/// In ESTABLISHED, FIN-WAIT-1 and FIN-WAIT-2 an acceptable ACK moves SND.UNA;
/// ESTABLISHED then sends its FIN and moves to FIN-WAIT-1. Also gives the
/// headers of the segments sent.
pub open spec fn after_data_ack(s: TcpState, seg: TcpFields) -> (TcpState, Seq<TcpFields>) {
    if (s.connection_state is Estab || s.connection_state is FinWait1
        || s.connection_state is FinWait2) && ack_in_window(
        s.send.una,
        seg.acknowledgment_number,
        s.send.nxt,
    ) {
        let s1 = TcpState { send: SendSequence { una: seg.acknowledgment_number, ..s.send }, ..s };
        if s1.connection_state is Estab {
            let s2 = TcpState { tcp: TcpFields { fin: true, ..s1.tcp }, ..s1 };
            (
                TcpState { connection_state: ConnectionState::FinWait1, ..after_write(s2, 0) },
                seq![sent_header(s2)],
            )
        } else {
            (s1, seq![])
        }
    } else {
        (s, seq![])
    }
}

/// FIN-WAIT-1 moves to FIN-WAIT-2 once SND.UNA reaches ISS + 2: the SYN and
/// the FIN are both acknowledged.
pub open spec fn after_fin_acked(s: TcpState) -> TcpState {
    if s.connection_state is FinWait1 && s.send.una == seq_add(s.send.iss, 2) {
        TcpState { connection_state: ConnectionState::FinWait2, ..s }
    } else {
        s
    }
}

/// What `on_packet` does with a segment of `n` payload bytes: the new
/// connection, the headers of the segments sent (each with no payload), and
/// whether the segment was handled (false: a FIN in a state other than
/// FIN-WAIT-2).
pub open spec fn on_packet_model(s: TcpState, seg: TcpFields, n: int) -> (
    TcpState,
    Seq<TcpFields>,
    bool,
) {
    if !segment_acceptable(s.recieve, seg, n) {
        (after_write(s, 0), seq![sent_header(s)], true)
    } else {
        let s1 = after_receive(s, seg, n);
        if !seg.ack {
            (s1, seq![], true)
        } else {
            let s2 = after_handshake_ack(s1, seg);
            let s3 = after_data_ack(s2, seg).0;
            let hs = after_data_ack(s2, seg).1;
            let s4 = after_fin_acked(s3);
            if !seg.fin {
                (s4, hs, true)
            } else if s4.connection_state is FinWait2 {
                (
                    TcpState { connection_state: ConnectionState::TimeWait, ..after_write(s4, 0) },
                    hs.push(sent_header(s4)),
                    true,
                )
            } else {
                (s4, hs, false)
            }
        }
    }
}

impl TcpState {
    /// The invariant of every connection that `accept` creates and the engine
    /// updates: only the SYN and the FIN ever take sequence space, so
    /// `ISS <= SND.UNA <= SND.NXT <= ISS + 2`, with the state telling how far.
    pub open spec fn wf(&self) -> bool {
        &&& self.send.iss == ISS
        &&& self.send.wnd == LOCAL_WINDOW
        &&& !self.tcp.syn
        &&& !self.tcp.fin
        &&& self.tcp.ack
        &&& self.send.una <= self.send.nxt <= ISS + 2
        &&& self.connection_state is SynRcvd ==> self.send.una == ISS && self.send.nxt == ISS + 1
        &&& self.connection_state is Estab ==> self.send.nxt == ISS + 1
        &&& self.connection_state is FinWait1 ==> self.send.nxt == ISS + 2
        &&& (self.connection_state is FinWait2 || self.connection_state is TimeWait)
            ==> self.send.una == ISS + 2 && self.send.nxt == ISS + 2
    }

    /// Answers a SYN with a SYN|ACK and returns the new connection in
    /// SYN-RECEIVED; any other segment is dropped and nothing is sent.
    pub fn accept(
        out: &mut Vec<OutSegment>,
        ip_header: &Ipv4Fields,
        tcp_header: &TcpFields,
        data: &[u8],
    ) -> (r: Option<TcpState>)
        ensures
            !tcp_header.syn ==> r is None && final(out)@ == old(out)@,
            tcp_header.syn ==> {
                &&& r == Some(after_write(accepted(*ip_header, *tcp_header), 0))
                &&& pushed_segment(
                    old(out)@,
                    final(out)@,
                    accepted(*ip_header, *tcp_header),
                    seq![],
                )
            },
            r matches Some(c) ==> c.wf(),
    {
        if !tcp_header.syn {
            return None;
        }
        let mut connection = TcpState {
            connection_state: ConnectionState::SynRcvd,
            recieve: RecieveSequence {
                nxt: seq_wrapping_add(tcp_header.sequence_number, 1),
                wnd: tcp_header.window_size,
                up: false,
                irs: tcp_header.sequence_number,
            },
            send: SendSequence {
                una: ISS,
                nxt: ISS,
                wnd: LOCAL_WINDOW,
                up: false,
                wl1: 0,
                wl2: 0,
                iss: ISS,
            },
            ip: Ipv4Fields {
                source: ip_header.destination,
                destination: ip_header.source,
                time_to_live: OUTBOUND_TTL,
                protocol: PROTOCOL_TCP,
            },
            tcp: TcpFields {
                source_port: tcp_header.destination_port,
                destination_port: tcp_header.source_port,
                sequence_number: ISS,
                acknowledgment_number: 0,
                window_size: LOCAL_WINDOW,
                syn: true,
                ack: true,
                fin: false,
                rst: false,
            },
        };
        let empty: [u8; 0] = [];
        connection.write(out, &empty);
        assert(empty@.subrange(0, 0) =~= Seq::<u8>::empty());
        assert(connection.send.nxt == ISS + 1) by {
            assert(seq_add(ISS, 1) == 1);
        }
        Some(connection)
    }

    /// Sets RST on the prototype and sends an empty segment. Not used by the
    /// state machine itself.
    pub fn snd_rst(&mut self, out: &mut Vec<OutSegment>)
        requires
            old(self).wf(),
        ensures
            final(self).wf(),
            *final(self) == after_write(rst_staged(*old(self)), 0),
            pushed_segment(old(out)@, final(out)@, rst_staged(*old(self)), seq![]),
    {
        self.tcp.rst = true;
        self.tcp.sequence_number = 0;
        self.tcp.acknowledgment_number = 0;
        let empty: [u8; 0] = [];
        self.write(out, &empty);
        assert(empty@.subrange(0, 0) =~= Seq::<u8>::empty());
        assert(seq_add(old(self).send.nxt, 0) == old(self).send.nxt);
    }
}

impl TcpState {
    /// Handles one incoming segment on this connection: checks it against the
    /// receive window (answering an unacceptable one with an empty ACK), moves
    /// RCV.NXT past it, then processes its ACK and FIN through the state
    /// transitions, each of which may enable the next on the same segment.
    /// Fails on a FIN in any state but FIN-WAIT-2.
    #[verifier::rlimit(40)]
    #[verifier::spinoff_prover]
    pub fn on_packet(
        &mut self,
        out: &mut Vec<OutSegment>,
        ip_header: &Ipv4Fields,
        tcp_header: &TcpFields,
        data: &[u8],
    ) -> (r: Result<(), TcpError>)
        requires
            old(self).wf(),
        ensures
            final(self).wf(),
            *final(self) == on_packet_model(*old(self), *tcp_header, data@.len() as int).0,
            pushed_empty_segments(
                old(out)@,
                final(out)@,
                old(self).ip,
                on_packet_model(*old(self), *tcp_header, data@.len() as int).1,
            ),
            r is Ok <==> on_packet_model(*old(self), *tcp_header, data@.len() as int).2,
            r matches Err(e) ==> e == TcpError::UnimplementedTransition,
    {
        let ghost s0 = *self;
        let ghost o0 = out@;
        let ghost n = data@.len() as int;
        let empty: [u8; 0] = [];
        proof {
            lemma_pushed_none(o0, s0.ip);
            assert(empty@.subrange(0, 0) =~= Seq::<u8>::empty());
        }
        if !segment_is_acceptable(&self.recieve, tcp_header, data.len()) {
            self.write(out, &empty);
            proof {
                lemma_pushed_one_more(o0, o0, out@, s0, seq![]);
                assert(seq![].push(sent_header(s0)) =~= seq![sent_header(s0)]);
            }
            return Ok(());
        }
        self.recieve.nxt = segment_end(tcp_header, data.len());
        if !tcp_header.ack {
            return Ok(());
        }
        let una = self.send.una;
        let ack = tcp_header.acknowledgment_number;
        if matches!(self.connection_state, ConnectionState::SynRcvd) && is_ack_in_closed_window(
            una,
            ack,
            self.send.nxt,
        ) {
            self.connection_state = ConnectionState::Estab;
        }
        let ghost s2 = *self;
        assert(s2 == after_handshake_ack(after_receive(s0, *tcp_header, n), *tcp_header));
        if matches!(
            self.connection_state,
            ConnectionState::Estab | ConnectionState::FinWait1 | ConnectionState::FinWait2
        ) && is_ack_acceptable(una, ack, self.send.nxt) {
            self.send.una = ack;
            if matches!(self.connection_state, ConnectionState::Estab) {
                self.tcp.fin = true;
                let ghost s2c = *self;
                self.write(out, &empty);
                self.connection_state = ConnectionState::FinWait1;
                proof {
                    lemma_pushed_one_more(o0, o0, out@, s2c, seq![]);
                    assert(seq![].push(sent_header(s2c)) =~= seq![sent_header(s2c)]);
                }
            }
        }
        let ghost hs = after_data_ack(s2, *tcp_header).1;
        assert(*self == after_data_ack(s2, *tcp_header).0);
        assert(pushed_empty_segments(o0, out@, s0.ip, hs));
        if matches!(self.connection_state, ConnectionState::FinWait1) && self.send.una
            == self.send.iss + 2 {
            self.connection_state = ConnectionState::FinWait2;
        }
        let ghost s4 = *self;
        assert(s4 == after_fin_acked(after_data_ack(s2, *tcp_header).0));
        if tcp_header.fin {
            if matches!(self.connection_state, ConnectionState::FinWait2) {
                let ghost o3 = out@;
                self.write(out, &empty);
                self.connection_state = ConnectionState::TimeWait;
                proof {
                    lemma_pushed_one_more(o0, o3, out@, s4, hs);
                    assert(seq_add(s4.send.nxt, 0) == s4.send.nxt);
                }
            } else {
                return Err(TcpError::UnimplementedTransition);
            }
        }
        Ok(())
    }
}

/// The connection with RST staged on its prototype and the prototype's
/// sequence and acknowledgment numbers zeroed.
pub open spec fn rst_staged(s: TcpState) -> TcpState {
    TcpState {
        tcp: TcpFields { rst: true, sequence_number: 0, acknowledgment_number: 0, ..s.tcp },
        ..s
    }
}


proof fn lemma_pushed_none(o: Seq<OutSegment>, ip: Ipv4Fields)
    ensures
        pushed_empty_segments(o, o, ip, seq![]),
{
    assert(o.subrange(0, o.len() as int) =~= o);
}

proof fn lemma_pushed_one_more(
    o0: Seq<OutSegment>,
    o1: Seq<OutSegment>,
    o2: Seq<OutSegment>,
    s: TcpState,
    hs: Seq<TcpFields>,
)
    requires
        pushed_empty_segments(o0, o1, s.ip, hs),
        pushed_segment(o1, o2, s, seq![]),
    ensures
        pushed_empty_segments(o0, o2, s.ip, hs.push(sent_header(s))),
{
    let hs2 = hs.push(sent_header(s));
    assert(o2.subrange(0, o0.len() as int) =~= o0) by {
        assert(o2.subrange(0, o0.len() as int) =~= o1.subrange(0, o0.len() as int));
    }
    assert forall|i: int| 0 <= i < hs2.len() implies {
        &&& (#[trigger] o2[o0.len() + i]).ip == s.ip
        &&& o2[o0.len() + i].tcp == hs2[i]
        &&& o2[o0.len() + i].payload@.len() == 0
    } by {
        if i < hs.len() {
            assert(o2[o0.len() + i] == o2.subrange(0, o1.len() as int)[o0.len() + i]);
            assert(o1[o0.len() + i].ip == s.ip);
        } else {
            assert(o0.len() + i == o2.len() - 1);
        }
    }
}

/// Receive acceptability of a segment carrying `data_len` payload bytes.
pub fn segment_is_acceptable(rcv: &RecieveSequence, seg: &TcpFields, data_len: usize) -> (r: bool)
    ensures
        r == segment_acceptable(*rcv, *seg, data_len as int),
{
    let nxt = rcv.nxt;
    let seq = seg.sequence_number;
    let end = seq_wrapping_add(nxt, rcv.wnd as u32);
    if data_len == 0 && !seg.syn && !seg.fin {
        if rcv.wnd == 0 {
            seq == nxt
        } else {
            in_wrapping_range(nxt, seq, end)
        }
    } else if rcv.wnd == 0 {
        false
    } else {
        let seq_end = seq_wrapping_add(seq, segment_len_minus_one(seg, data_len));
        proof {
            lemma_seq_add_mod(seq, segment_len(*seg, data_len as int) - 1);
        }
        in_wrapping_range(nxt, seq, end) || in_wrapping_range(nxt, seq_end, end)
    }
}

/// `segment_len - 1` reduced modulo 2^32, for a segment that occupies
/// sequence space.
fn segment_len_minus_one(seg: &TcpFields, data_len: usize) -> (r: u32)
    requires
        segment_len(*seg, data_len as int) > 0,
    ensures
        r as int == (segment_len(*seg, data_len as int) - 1) % seq_space(),
{
    let flags: u64 = if seg.syn {
        1
    } else {
        0
    } + if seg.fin {
        1
    } else {
        0
    };
    let k: u64 = (data_len as u64 % 0x1_0000_0000) + flags + 0xffff_ffff;
    let r = (k % 0x1_0000_0000) as u32;
    proof {
        let x = data_len as int;
        let m = seq_space();
        vstd::arithmetic::div_mod::lemma_fundamental_div_mod(x, m);
        let q = x / m;
        assert(k as int == x - m * q + flags + (m - 1));
        assert((x + flags - 1) == k as int + m * (q - 1));
        vstd::arithmetic::div_mod::lemma_mod_multiples_vanish(q - 1, k as int, m);
        vstd::arithmetic::mul::lemma_mul_is_commutative(m, q - 1);
    }
    r
}

/// `seq + segment_len`: the first sequence number after the segment.
fn segment_end(seg: &TcpFields, data_len: usize) -> (r: u32)
    ensures
        r == seq_add(seg.sequence_number, segment_len(*seg, data_len as int)),
{
    let n: u32 = (data_len as u64 % 0x1_0000_0000) as u32;
    let mut r = seq_wrapping_add(seg.sequence_number, n);
    let ghost a = seg.sequence_number;
    let ghost x = data_len as int;
    proof {
        lemma_seq_add_mod(a, x);
    }
    if seg.syn {
        proof {
            lemma_seq_add_twice(a, x, 1);
        }
        r = seq_wrapping_add(r, 1);
    }
    if seg.fin {
        proof {
            lemma_seq_add_twice(a, x + flag_len(seg.syn), 1);
        }
        r = seq_wrapping_add(r, 1);
    }
    r
}

/// In every well-formed connection `SND.UNA <= SND.NXT <= SND.UNA + SND.WND`
/// in sequence space.
pub proof fn lemma_send_window(s: TcpState)
    requires
        s.wf(),
    ensures
        ack_in_closed_window(s.send.una, s.send.nxt, seq_add(s.send.una, s.send.wnd as int)),
        seq_dist(s.send.una, s.send.nxt) <= s.send.wnd,
{
}

/// A connection that `accept` opens expects the byte after the peer's SYN and
/// has SND.NXT = ISS before its SYN|ACK is written; the SYN|ACK carries
/// sequence number ISS, and after it SND.NXT = ISS + 1 and SYN is cleared.
pub proof fn lemma_accept_sequence(ip: Ipv4Fields, seg: TcpFields)
    ensures
        accepted(ip, seg).recieve.nxt == seq_add(accepted(ip, seg).recieve.irs, 1),
        accepted(ip, seg).send.nxt == accepted(ip, seg).send.iss,
        sent_header(accepted(ip, seg)).syn,
        sent_header(accepted(ip, seg)).sequence_number == accepted(ip, seg).send.iss,
        after_write(accepted(ip, seg), 0).send.nxt == accepted(ip, seg).send.iss + 1,
        !after_write(accepted(ip, seg), 0).tcp.syn,
        after_write(accepted(ip, seg), 0).wf(),
{
    assert(seq_add(ISS, 1) == 1);
}

/// Once the FIN has been sent (FIN-WAIT-1 and after) SND.NXT = ISS + 2, and
/// once the peer has acknowledged it (FIN-WAIT-2 and TIME-WAIT) SND.UNA =
/// ISS + 2 as well.
pub proof fn lemma_fin_sequence(s: TcpState)
    requires
        s.wf(),
    ensures
        (s.connection_state is FinWait1 || s.connection_state is FinWait2
            || s.connection_state is TimeWait) ==> s.send.nxt == s.send.iss + 2,
        (s.connection_state is FinWait2 || s.connection_state is TimeWait) ==> s.send.una
            == s.send.iss + 2,
{
}

} // verus!
