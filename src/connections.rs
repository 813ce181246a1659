//! The connection table: connections keyed by four-tuple, and the
//! demultiplexer that routes each incoming datagram to its connection or
//! opens a new one.
use vstd::prelude::*;
use vstd::slice::slice_subrange;
use crate::tcp::{
    accepted, after_write, on_packet_model, pushed_empty_segments, pushed_segment, Ipv4Fields,
    OutSegment, TcpError, TcpFields, TcpState, PROTOCOL_TCP,
};
use crate::wire::{
    be32, ipv4_fields_of, ipv4_header_len_of, ipv4_header_ok, ipv4_header_slice,
    tcp_fields_of, tcp_header_len_of, tcp_header_ok, tcp_header_slice,
};

verus! {

/// A connection's four-tuple as seen on incoming datagrams: the peer is the
/// source, the local end the destination. Addresses are big-endian `u32`s.
#[derive(Clone, Copy, Debug, PartialEq, Eq, Hash, Structural)]
pub struct Quad {
    pub src_addr: u32,
    pub src_port: u16,
    pub dst_addr: u32,
    pub dst_port: u16,
}

/// The four-tuple of an incoming segment.
pub open spec fn quad_of(ip: Ipv4Fields, t: TcpFields) -> Quad {
    Quad {
        src_addr: be32(ip.source@, 0) as u32,
        src_port: t.source_port,
        dst_addr: be32(ip.destination@, 0) as u32,
        dst_port: t.destination_port,
    }
}

/// The address that four bytes give, read big-endian.
fn addr_of(a: [u8; 4]) -> (r: u32)
    ensures
        r == be32(a@, 0),
{
    (a[0] as u32) * 0x100_0000 + (a[1] as u32) * 0x1_0000 + (a[2] as u32) * 0x100 + (a[3] as u32)
}

/// The four-tuple of an incoming segment.
pub fn quad(ip: &Ipv4Fields, t: &TcpFields) -> (r: Quad)
    ensures
        r == quad_of(*ip, *t),
{
    Quad {
        src_addr: addr_of(ip.source),
        src_port: t.source_port,
        dst_addr: addr_of(ip.destination),
        dst_port: t.destination_port,
    }
}

/// `d` is an IPv4 datagram that carries a TCP header.
pub open spec fn carries_tcp(d: Seq<u8>) -> bool {
    &&& ipv4_header_ok(d)
    &&& d[9] == PROTOCOL_TCP
    &&& tcp_header_ok(d.subrange(ipv4_header_len_of(d), d.len() as int))
}

/// The TCP header and what follows it.
pub open spec fn tcp_part(d: Seq<u8>) -> Seq<u8> {
    d.subrange(ipv4_header_len_of(d), d.len() as int)
}

/// The TCP header fields of a datagram.
pub open spec fn datagram_tcp(d: Seq<u8>) -> TcpFields {
    tcp_fields_of(tcp_part(d))
}

/// The number of payload bytes of a datagram.
pub open spec fn datagram_payload_len(d: Seq<u8>) -> int {
    tcp_part(d).len() - tcp_header_len_of(tcp_part(d))
}

/// The four-tuple of a datagram.
pub open spec fn datagram_quad(d: Seq<u8>) -> Quad {
    quad_of(ipv4_fields_of(d), datagram_tcp(d))
}

/// The table holds `q` at index `i`.
pub open spec fn holds_at(entries: Seq<(Quad, TcpState)>, q: Quad, i: int) -> bool {
    0 <= i < entries.len() && entries[i].0 == q
}

/// What became of an incoming datagram.
#[derive(Clone, Copy, Debug, PartialEq, Eq, Structural)]
pub enum Disposition {
    /// It does not start with a valid IPv4 header; dropped.
    BadIpv4Header,
    /// It does not carry TCP; skipped.
    NotTcp,
    /// No valid TCP header follows the IPv4 header; dropped.
    BadTcpHeader,
    /// Handed to the connection of its four-tuple.
    Delivered,
    /// A SYN to an unknown four-tuple; it opened a connection.
    Accepted,
    /// Any other segment to an unknown four-tuple; dropped without reply.
    Unsolicited,
}

/// Connections keyed by four-tuple.
pub struct ConnectionTable {
    pub entries: Vec<(Quad, TcpState)>,
}

impl ConnectionTable {
    /// At most one record per four-tuple, and every connection well formed.
    pub open spec fn wf(&self) -> bool {
        &&& forall|i: int, j: int|
            0 <= i < j < self.entries@.len() ==> #[trigger] self.entries@[i].0
                != #[trigger] self.entries@[j].0
        &&& forall|i: int| 0 <= i < self.entries@.len() ==> (#[trigger] self.entries@[i]).1.wf()
    }

    /// An empty table.
    pub fn new() -> (r: ConnectionTable)
        ensures
            r.wf(),
            r.entries@.len() == 0,
    {
        ConnectionTable { entries: Vec::new() }
    }

    /// The number of connections.
    pub fn len(&self) -> (r: usize)
        ensures
            r == self.entries@.len(),
    {
        self.entries.len()
    }

    /// The index of the connection with four-tuple `q`, if there is one.
    pub fn find(&self, q: &Quad) -> (r: Option<usize>)
        ensures
            r matches Some(i) ==> holds_at(self.entries@, *q, i as int),
            r is None ==> forall|i: int| !holds_at(self.entries@, *q, i),
    {
        let mut i: usize = 0;
        while i < self.entries.len()
            invariant
                i <= self.entries@.len(),
                forall|k: int| 0 <= k < i ==> !holds_at(self.entries@, *q, k),
            decreases self.entries@.len() - i,
        {
            if self.entries[i].0 == *q {
                return Some(i);
            }
            i += 1;
        }
        None
    }

    /// The connection with four-tuple `q`, if there is one.
    pub fn get(&self, q: &Quad) -> (r: Option<TcpState>)
        ensures
            r matches Some(c) ==> exists|i: int|
                holds_at(self.entries@, *q, i) && self.entries@[i].1 == c,
            r is None ==> forall|i: int| !holds_at(self.entries@, *q, i),
    {
        match self.find(q) {
            Some(i) => Some(self.entries[i].1),
            None => None,
        }
    }

    /// Handles one incoming datagram. One that is not IPv4 carrying TCP is
    /// dropped. A segment for a known four-tuple goes to its connection's
    /// `on_packet`; one for an unknown four-tuple goes to `accept`, and the
    /// connection it opens, if any, is added. Segments to send are appended
    /// to `out`.
    pub fn handle(&mut self, out: &mut Vec<OutSegment>, datagram: &[u8]) -> (r: Result<
        Disposition,
        TcpError,
    >)
        requires
            old(self).wf(),
        ensures
            final(self).wf(),
            !carries_tcp(datagram@) ==> {
                &&& final(self).entries@ == old(self).entries@
                &&& final(out)@ == old(out)@
                &&& !ipv4_header_ok(datagram@) ==> r == Ok::<Disposition, TcpError>(
                    Disposition::BadIpv4Header,
                )
                &&& ipv4_header_ok(datagram@) && datagram@[9] != PROTOCOL_TCP ==> r == Ok::<
                    Disposition,
                    TcpError,
                >(Disposition::NotTcp)
                &&& ipv4_header_ok(datagram@) && datagram@[9] == PROTOCOL_TCP ==> r == Ok::<
                    Disposition,
                    TcpError,
                >(Disposition::BadTcpHeader)
            },
            carries_tcp(datagram@) ==> {
                let q = datagram_quad(datagram@);
                let t = datagram_tcp(datagram@);
                let n = datagram_payload_len(datagram@);
                &&& forall|i: int|
                    holds_at(old(self).entries@, q, i) ==> {
                        let m = on_packet_model(old(self).entries@[i].1, t, n);
                        &&& final(self).entries@ == old(self).entries@.update(i, (q, m.0))
                        &&& pushed_empty_segments(
                            old(out)@,
                            final(out)@,
                            old(self).entries@[i].1.ip,
                            m.1,
                        )
                        &&& m.2 ==> r == Ok::<Disposition, TcpError>(Disposition::Delivered)
                        &&& !m.2 ==> r == Err::<Disposition, TcpError>(
                            TcpError::UnimplementedTransition,
                        )
                    }
                &&& (forall|i: int| !holds_at(old(self).entries@, q, i)) ==> {
                    let c = accepted(ipv4_fields_of(datagram@), t);
                    &&& t.syn ==> r == Ok::<Disposition, TcpError>(Disposition::Accepted)
                        && final(self).entries@ == old(self).entries@.push((q, after_write(c, 0)))
                        && pushed_segment(old(out)@, final(out)@, c, seq![])
                    &&& !t.syn ==> r == Ok::<Disposition, TcpError>(Disposition::Unsolicited)
                        && final(self).entries@ == old(self).entries@ && final(out)@ == old(out)@
                }
            },
    {
        let (ip, ip_len) = match ipv4_header_slice(datagram) {
            Some(p) => p,
            None => return Ok(Disposition::BadIpv4Header),
        };
        if ip.protocol != PROTOCOL_TCP {
            return Ok(Disposition::NotTcp);
        }
        let rest = slice_subrange(datagram, ip_len, datagram.len());
        let (tcp, tcp_len) = match tcp_header_slice(rest) {
            Some(p) => p,
            None => return Ok(Disposition::BadTcpHeader),
        };
        let payload = slice_subrange(rest, tcp_len, rest.len());
        let q = quad(&ip, &tcp);
        match self.find(&q) {
            Some(i) => {
                let mut c = self.entries[i].1;
                let r = c.on_packet(out, &ip, &tcp, payload);
                self.entries.set(i, (q, c));
                proof {
                    assert forall|k: int|
                        holds_at(old(self).entries@, q, k) implies k == i as int by {
                        if k != i as int {
                            if k < i as int {
                                assert(old(self).entries@[k].0 != old(self).entries@[i as int].0);
                            } else {
                                assert(old(self).entries@[i as int].0 != old(self).entries@[k].0);
                            }
                        }
                    }
                    assert forall|a: int, b: int|
                        0 <= a < b < self.entries@.len() implies #[trigger] self.entries@[a].0
                        != #[trigger] self.entries@[b].0 by {
                        assert(old(self).entries@[a].0 != old(self).entries@[b].0);
                    }
                    assert forall|a: int| 0 <= a < self.entries@.len() implies (
                    #[trigger] self.entries@[a]).1.wf() by {
                        if a != i as int {
                            assert(old(self).entries@[a].1.wf());
                        }
                    }
                }
                match r {
                    Ok(()) => Ok(Disposition::Delivered),
                    Err(e) => Err(e),
                }
            },
            None => {
                if let Some(c) = TcpState::accept(out, &ip, &tcp, payload) {
                    self.entries.push((q, c));
                    proof {
                        assert forall|a: int, b: int|
                            0 <= a < b < self.entries@.len() implies #[trigger] self.entries@[a].0
                            != #[trigger] self.entries@[b].0 by {
                            if b < old(self).entries@.len() {
                                assert(old(self).entries@[a].0 != old(self).entries@[b].0);
                            } else {
                                assert(!holds_at(old(self).entries@, q, a));
                            }
                        }
                        assert forall|a: int| 0 <= a < self.entries@.len() implies (
                        #[trigger] self.entries@[a]).1.wf() by {
                            if a < old(self).entries@.len() {
                                assert(old(self).entries@[a].1.wf());
                            }
                        }
                    }
                    Ok(Disposition::Accepted)
                } else {
                    Ok(Disposition::Unsolicited)
                }
            },
        }
    }
}

/// The table never holds two records for one four-tuple.
pub proof fn lemma_one_record_per_quad(t: ConnectionTable, i: int, j: int)
    requires
        t.wf(),
        0 <= i < t.entries@.len(),
        0 <= j < t.entries@.len(),
        t.entries@[i].0 == t.entries@[j].0,
    ensures
        i == j,
{
    if i < j {
        assert(t.entries@[i].0 != t.entries@[j].0);
    } else if j < i {
        assert(t.entries@[j].0 != t.entries@[i].0);
    }
}

} // verus!
