//! IPv4 and TCP headers on the wire. Parsing, serialization and checksums
//! are done by `etherparse`; the wrappers below state what they produce.
use vstd::prelude::*;
use crate::tcp::{Ipv4Fields, OutSegment, TcpFields, IPV4_HEADER_LEN, TCP_HEADER_LEN};

verus! {

/// The big-endian value of the two bytes at `i`.
pub open spec fn be16(b: Seq<u8>, i: int) -> int {
    b[i] * 0x100 + b[i + 1]
}

/// Reads the big-endian 16-bit value of the two bytes at `i`.
pub fn take_16b(b: &[u8], i: usize) -> (r: u16)
    requires
        i + 2 <= b@.len(),
    ensures
        r == be16(b@, i as int),
{
    (b[i] as u16) * 0x100 + (b[i + 1] as u16)
}

/// The big-endian value of the four bytes at `i`.
pub open spec fn be32(b: Seq<u8>, i: int) -> int {
    b[i] * 0x100_0000 + b[i + 1] * 0x1_0000 + b[i + 2] * 0x100 + b[i + 3]
}

/// Bit `k` (counting from the least significant) of a byte.
pub open spec fn bit_of(x: u8, k: nat) -> bool {
    (x as int / vstd::arithmetic::power2::pow2(k) as int) % 2 == 1
}

/// The high byte of a 16-bit value.
pub open spec fn hi8(x: int) -> u8 {
    ((x / 0x100) % 0x100) as u8
}

/// The low byte of a value.
pub open spec fn lo8(x: int) -> u8 {
    (x % 0x100) as u8
}

/// Length in bytes that the IHL field of an IPv4 header gives.
pub open spec fn ipv4_header_len_of(b: Seq<u8>) -> int {
    (b[0] % 16) * 4
}

/// `b` starts with an IPv4 header that etherparse accepts: version 4, an IHL
/// of at least 5 that fits in `b`, and a total length that covers the header.
pub open spec fn ipv4_header_ok(b: Seq<u8>) -> bool {
    &&& b.len() >= IPV4_HEADER_LEN
    &&& b[0] / 16 == 4
    &&& b[0] % 16 >= 5
    &&& b.len() >= ipv4_header_len_of(b)
    &&& be16(b, 2) >= ipv4_header_len_of(b)
}

/// The IPv4 header fields at the start of `b`.
pub open spec fn ipv4_fields_of(b: Seq<u8>) -> Ipv4Fields {
    Ipv4Fields {
        source: [b[12], b[13], b[14], b[15]],
        destination: [b[16], b[17], b[18], b[19]],
        time_to_live: b[8],
        protocol: b[9],
    }
}

/// The TCP header fields at the start of `b`.
pub open spec fn tcp_fields_of(b: Seq<u8>) -> TcpFields {
    TcpFields {
        source_port: be16(b, 0) as u16,
        destination_port: be16(b, 2) as u16,
        sequence_number: be32(b, 4) as u32,
        acknowledgment_number: be32(b, 8) as u32,
        window_size: be16(b, 14) as u16,
        syn: bit_of(b[13], 1),
        ack: bit_of(b[13], 4),
        fin: bit_of(b[13], 0),
        rst: bit_of(b[13], 2),
    }
}

/// Length in bytes that the data offset of a TCP header gives.
pub open spec fn tcp_header_len_of(b: Seq<u8>) -> int {
    (b[12] / 16) * 4
}

/// `b` starts with a TCP header that etherparse accepts: a data offset of at
/// least 5 that fits in `b`.
pub open spec fn tcp_header_ok(b: Seq<u8>) -> bool {
    &&& b.len() >= TCP_HEADER_LEN
    &&& b[12] / 16 >= 5
    &&& b.len() >= tcp_header_len_of(b)
}

/// The control-flag byte of a TCP header with the given flags.
pub open spec fn tcp_flag_byte(t: TcpFields) -> u8 {
    (if t.fin {
        1int
    } else {
        0
    } + if t.syn {
        2int
    } else {
        0
    } + if t.rst {
        4int
    } else {
        0
    } + if t.ack {
        16int
    } else {
        0
    }) as u8
}

/// A TCP header without options, in wire order.
pub open spec fn tcp_header_layout(t: TcpFields, checksum: u16) -> Seq<u8> {
    seq![
        hi8(t.source_port as int), lo8(t.source_port as int),
        hi8(t.destination_port as int), lo8(t.destination_port as int),
        lo8(t.sequence_number as int / 0x100_0000), lo8(t.sequence_number as int / 0x1_0000),
        lo8(t.sequence_number as int / 0x100), lo8(t.sequence_number as int),
        lo8(t.acknowledgment_number as int / 0x100_0000), lo8(t.acknowledgment_number as int / 0x1_0000),
        lo8(t.acknowledgment_number as int / 0x100), lo8(t.acknowledgment_number as int),
        0x50u8, tcp_flag_byte(t),
        hi8(t.window_size as int), lo8(t.window_size as int),
        hi8(checksum as int), lo8(checksum as int),
        0u8, 0u8,
    ]
}

/// An IPv4 header without options, in wire order: no fragmentation allowed,
/// identification 0.
pub open spec fn ipv4_header_layout(ip: Ipv4Fields, payload_len: u16, checksum: u16) -> Seq<u8> {
    let total = payload_len + IPV4_HEADER_LEN;
    seq![
        0x45u8, 0u8, hi8(total), lo8(total),
        0u8, 0u8, 0x40u8, 0u8,
        ip.time_to_live, ip.protocol, hi8(checksum as int), lo8(checksum as int),
    ] + ip.source@ + ip.destination@
}

/// The IPv4 header checksum of a header given with its checksum field zero.
pub uninterp spec fn ipv4_checksum_of(header: Seq<u8>) -> u16;

/// The TCP checksum over the IPv4 pseudo-header of `source` and
/// `destination` and a TCP header (given with its checksum field zero)
/// followed by no payload.
pub uninterp spec fn tcp_checksum_of(source: Seq<u8>, destination: Seq<u8>, header: Seq<u8>) -> u16;

/// The wire image of an outbound segment.
pub open spec fn segment_image(seg: OutSegment) -> Seq<u8> {
    let payload_len = (TCP_HEADER_LEN + seg.payload@.len()) as u16;
    let tcp_zero = tcp_header_layout(seg.tcp, 0);
    ipv4_header_layout(seg.ip, payload_len, ipv4_checksum_of(ipv4_header_layout(seg.ip, payload_len, 0)))
        + tcp_header_layout(seg.tcp, tcp_checksum_of(seg.ip.source@, seg.ip.destination@, tcp_zero))
        + seg.payload@
}

/// Relies on etherparse::Ipv4HeaderSlice::from_slice, which accepts exactly
/// the inputs of `ipv4_header_ok`, and on its accessors `ttl`, `protocol`,
/// `source`, `destination` (bytes 8, 9, 12..16, 16..20) and `slice` (the
/// header, IHL * 4 bytes).
#[verifier::external_body]
pub(crate) fn ipv4_header_slice(b: &[u8]) -> (r: Option<(Ipv4Fields, usize)>)
    ensures
        r is Some <==> ipv4_header_ok(b@),
        r matches Some((f, len)) ==> f == ipv4_fields_of(b@) && len == ipv4_header_len_of(b@),
{
    let h = etherparse::Ipv4HeaderSlice::from_slice(b).ok()?;
    let (source, destination) = (h.source(), h.destination());
    let f = Ipv4Fields { source, destination, time_to_live: h.ttl(), protocol: h.protocol() };
    Some((f, h.slice().len()))
}

/// Relies on etherparse::TcpHeaderSlice::from_slice, which accepts exactly
/// the inputs of `tcp_header_ok`, and on its accessors (ports at 0 and 2,
/// sequence and acknowledgment numbers at 4 and 8, flag bits of byte 13,
/// window at 14, and `slice`: the header, data offset * 4 bytes).
#[verifier::external_body]
pub(crate) fn tcp_header_slice(b: &[u8]) -> (r: Option<(TcpFields, usize)>)
    ensures
        r is Some <==> tcp_header_ok(b@),
        r matches Some((t, len)) ==> t == tcp_fields_of(b@) && len == tcp_header_len_of(b@),
{
    let h = etherparse::TcpHeaderSlice::from_slice(b).ok()?;
    let (source_port, destination_port) = (h.source_port(), h.destination_port());
    let (sequence_number, window_size) = (h.sequence_number(), h.window_size());
    let acknowledgment_number = h.acknowledgment_number();
    let (syn, ack, fin, rst) = (h.syn(), h.ack(), h.fin(), h.rst());
    let t = TcpFields {
        source_port, destination_port, sequence_number, acknowledgment_number, window_size,
        syn, ack, fin, rst,
    };
    Some((t, h.slice().len()))
}

/// Relies on etherparse::Ipv4Header::write for a header made by
/// `Ipv4Header::new`: twenty bytes with the header checksum computed, which
/// succeeds whenever the payload length leaves room for the header.
#[verifier::external_body]
fn ipv4_header_bytes(ip: &Ipv4Fields, payload_len: u16) -> (r: Vec<u8>)
    requires
        payload_len + IPV4_HEADER_LEN <= u16::MAX,
    ensures
        r@ == ipv4_header_layout(
            *ip,
            payload_len,
            ipv4_checksum_of(ipv4_header_layout(*ip, payload_len, 0)),
        ),
{
    let h = etherparse::Ipv4Header::new(
        payload_len,
        ip.time_to_live,
        ip.protocol,
        ip.source,
        ip.destination,
    );
    let mut v = Vec::new();
    let _ = h.write(&mut v);
    v
}

/// Relies on etherparse::TcpHeader::write for a header made by
/// `TcpHeader::new` with no options: twenty bytes in wire order.
#[verifier::external_body]
fn tcp_header_bytes(t: &TcpFields, checksum: u16) -> (r: Vec<u8>)
    ensures
        r@ == tcp_header_layout(*t, checksum),
{
    let (sp, dp) = (t.source_port, t.destination_port);
    let mut h = etherparse::TcpHeader::new(sp, dp, t.sequence_number, t.window_size);
    h.acknowledgment_number = t.acknowledgment_number;
    (h.syn, h.ack, h.fin, h.rst) = (t.syn, t.ack, t.fin, t.rst);
    h.checksum = checksum;
    let mut v = Vec::new();
    let _ = h.write(&mut v);
    v
}

/// Relies on etherparse::TcpHeader::calc_checksum_ipv4_raw with an empty
/// payload, which only fails for a segment longer than 65535 bytes.
#[verifier::external_body]
fn tcp_header_checksum(ip: &Ipv4Fields, t: &TcpFields) -> (r: u16)
    ensures
        r == tcp_checksum_of(ip.source@, ip.destination@, tcp_header_layout(*t, 0)),
{
    let (sp, dp) = (t.source_port, t.destination_port);
    let mut h = etherparse::TcpHeader::new(sp, dp, t.sequence_number, t.window_size);
    h.acknowledgment_number = t.acknowledgment_number;
    (h.syn, h.ack, h.fin, h.rst) = (t.syn, t.ack, t.fin, t.rst);
    h.calc_checksum_ipv4_raw(ip.source, ip.destination, &[]).unwrap_or_default()
}

/// Serializes an outbound segment: its IPv4 header, its TCP header with the
/// checksum computed over the pseudo-header and the header, then its payload.
pub fn serialize_segment(seg: &OutSegment) -> (r: Vec<u8>)
    requires
        seg.payload@.len() + TCP_HEADER_LEN + IPV4_HEADER_LEN <= u16::MAX,
    ensures
        r@ == segment_image(*seg),
{
    let payload_len = (TCP_HEADER_LEN + seg.payload.len()) as u16;
    let mut r = ipv4_header_bytes(&seg.ip, payload_len);
    let checksum = tcp_header_checksum(&seg.ip, &seg.tcp);
    let mut tcp = tcp_header_bytes(&seg.tcp, checksum);
    r.append(&mut tcp);
    let mut i: usize = 0;
    let ghost head = r@;
    while i < seg.payload.len()
        invariant
            i <= seg.payload@.len(),
            r@ == head + seg.payload@.subrange(0, i as int),
        decreases seg.payload@.len() - i,
    {
        r.push(seg.payload[i]);
        i += 1;
        assert(r@ =~= head + seg.payload@.subrange(0, i as int));
    }
    assert(seg.payload@.subrange(0, i as int) =~= seg.payload@);
    r
}

proof fn lemma_be16_of_bytes(x: int)
    requires
        0 <= x < 0x1_0000,
    ensures
        hi8(x) * 0x100 + lo8(x) == x,
{
}

proof fn lemma_be32_of_bytes(x: int)
    requires
        0 <= x < 0x1_0000_0000,
    ensures
        lo8(x / 0x100_0000) * 0x100_0000 + lo8(x / 0x1_0000) * 0x1_0000 + lo8(x / 0x100) * 0x100
            + lo8(x) == x,
{
}

proof fn lemma_flag_bits(t: TcpFields)
    ensures
        bit_of(tcp_flag_byte(t), 0) == t.fin,
        bit_of(tcp_flag_byte(t), 1) == t.syn,
        bit_of(tcp_flag_byte(t), 2) == t.rst,
        bit_of(tcp_flag_byte(t), 4) == t.ack,
{
    vstd::arithmetic::power2::lemma2_to64();
}

/// Reading back the wire image of a segment gives the segment: the IPv4
/// header parses and holds the fields it was built from, the TCP header
/// after it parses and holds the fields it was built from, and the payload
/// follows them.
pub proof fn lemma_segment_round_trip(seg: OutSegment)
    requires
        seg.payload@.len() + TCP_HEADER_LEN + IPV4_HEADER_LEN <= u16::MAX,
    ensures
        ipv4_header_ok(segment_image(seg)),
        ipv4_header_len_of(segment_image(seg)) == IPV4_HEADER_LEN,
        ipv4_fields_of(segment_image(seg)) == seg.ip,
        tcp_header_ok(segment_image(seg).subrange(20, segment_image(seg).len() as int)),
        tcp_header_len_of(segment_image(seg).subrange(20, segment_image(seg).len() as int))
            == TCP_HEADER_LEN,
        tcp_fields_of(segment_image(seg).subrange(20, segment_image(seg).len() as int))
            == seg.tcp,
        segment_image(seg).subrange(40, segment_image(seg).len() as int) == seg.payload@,
{
    let b = segment_image(seg);
    let t = b.subrange(20, b.len() as int);
    let n = seg.payload@.len();
    let payload_len = (TCP_HEADER_LEN + n) as u16;
    lemma_be16_of_bytes(payload_len + IPV4_HEADER_LEN);
    assert(b.len() == 40 + n);
    assert(be16(b, 2) == 40 + n);
    assert(ipv4_fields_of(b).source =~= seg.ip.source);
    assert(ipv4_fields_of(b).destination =~= seg.ip.destination);
    lemma_be16_of_bytes(seg.tcp.source_port as int);
    lemma_be16_of_bytes(seg.tcp.destination_port as int);
    lemma_be16_of_bytes(seg.tcp.window_size as int);
    lemma_be32_of_bytes(seg.tcp.sequence_number as int);
    lemma_be32_of_bytes(seg.tcp.acknowledgment_number as int);
    lemma_flag_bits(seg.tcp);
    assert(t[12] == 0x50u8);
    assert(t[13] == tcp_flag_byte(seg.tcp));
    assert(b.subrange(40, b.len() as int) =~= seg.payload@);
}

} // verus!
