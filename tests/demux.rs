use etherparse::{Ipv4HeaderSlice, PacketBuilder, TcpHeaderSlice};
use tcp_endpoint::connections::{quad, ConnectionTable, Disposition, Quad};
use tcp_endpoint::tcp::{ConnectionState, Ipv4Fields, OutSegment, TcpFields};
use tcp_endpoint::wire::serialize_segment;

const PEER: [u8; 4] = [10, 0, 0, 2];
const LOCAL: [u8; 4] = [10, 0, 0, 1];

enum Flag {
    Syn,
    Fin,
}

fn datagram(seq: u32, ack: Option<u32>, flags: &[Flag], payload: &[u8]) -> Vec<u8> {
    let mut b = PacketBuilder::ipv4(PEER, LOCAL, 64).tcp(40000, 80, seq, 1024);
    for f in flags {
        b = match f {
            Flag::Syn => b.syn(),
            Flag::Fin => b.fin(),
        };
    }
    if let Some(a) = ack {
        b = b.ack(a);
    }
    let mut v = Vec::new();
    b.write(&mut v, payload).unwrap();
    v
}

fn peer_quad() -> Quad {
    Quad { src_addr: 0x0a00_0002, src_port: 40000, dst_addr: 0x0a00_0001, dst_port: 80 }
}

#[test]
fn non_syn_to_unknown_quad_is_dropped() {
    let mut table = ConnectionTable::new();
    let mut out = Vec::new();
    let d = table.handle(&mut out, &datagram(1000, Some(1), &[], &[])).unwrap();
    assert_eq!(d, Disposition::Unsolicited);
    assert!(out.is_empty());
    assert_eq!(table.len(), 0);
}

#[test]
fn syn_to_unknown_quad_opens_a_connection() {
    let mut table = ConnectionTable::new();
    let mut out = Vec::new();
    let d = table.handle(&mut out, &datagram(1000, None, &[Flag::Syn], &[])).unwrap();
    assert_eq!(d, Disposition::Accepted);
    assert_eq!(table.len(), 1);
    let c = table.get(&peer_quad()).unwrap();
    assert_eq!(c.connection_state, ConnectionState::SynRcvd);
    assert_eq!(c.recieve.nxt, 1001);
    assert_eq!(out.len(), 1);
    assert!(out[0].tcp.syn && out[0].tcp.ack);
    assert_eq!(out[0].tcp.acknowledgment_number, 1001);
}

#[test]
fn one_record_per_quad() {
    let mut table = ConnectionTable::new();
    let mut out = Vec::new();
    table.handle(&mut out, &datagram(1000, None, &[Flag::Syn], &[])).unwrap();
    table.handle(&mut out, &datagram(1001, Some(1), &[], &[])).unwrap();
    let d = table.handle(&mut out, &datagram(1000, None, &[Flag::Syn], &[])).unwrap();
    assert_eq!(d, Disposition::Delivered);
    assert_eq!(table.len(), 1);
    assert_eq!(table.find(&peer_quad()), Some(0));
}

#[test]
fn full_close_through_the_table() {
    let mut table = ConnectionTable::new();
    let mut out = Vec::new();
    table.handle(&mut out, &datagram(1000, None, &[Flag::Syn], &[])).unwrap();
    table.handle(&mut out, &datagram(1001, Some(1), &[], &[])).unwrap();
    assert_eq!(table.get(&peer_quad()).unwrap().connection_state, ConnectionState::FinWait1);
    table.handle(&mut out, &datagram(1001, Some(2), &[], &[])).unwrap();
    assert_eq!(table.get(&peer_quad()).unwrap().connection_state, ConnectionState::FinWait2);
    table.handle(&mut out, &datagram(1001, Some(2), &[Flag::Fin], &[])).unwrap();
    let c = table.get(&peer_quad()).unwrap();
    assert_eq!(c.connection_state, ConnectionState::TimeWait);
    assert_eq!(out.len(), 3);
    assert_eq!(out[2].tcp.sequence_number, 2);
    assert_eq!(out[2].tcp.acknowledgment_number, 1002);
}

#[test]
fn non_tcp_and_garbage_are_dropped() {
    let mut table = ConnectionTable::new();
    let mut out = Vec::new();
    let mut udp = Vec::new();
    PacketBuilder::ipv4(PEER, LOCAL, 64).udp(1, 2).write(&mut udp, &[1, 2]).unwrap();
    assert_eq!(table.handle(&mut out, &udp).unwrap(), Disposition::NotTcp);
    assert_eq!(table.handle(&mut out, &[0x45, 0, 0]).unwrap(), Disposition::BadIpv4Header);
    let mut truncated = datagram(1000, None, &[Flag::Syn], &[]);
    truncated.truncate(30);
    assert_eq!(table.handle(&mut out, &truncated).unwrap(), Disposition::BadTcpHeader);
    assert!(out.is_empty());
    assert_eq!(table.len(), 0);
}

#[test]
fn out_of_window_segment_through_the_table() {
    let mut table = ConnectionTable::new();
    let mut out = Vec::new();
    table.handle(&mut out, &datagram(1000, None, &[Flag::Syn], &[])).unwrap();
    out.clear();
    let d = table.handle(&mut out, &datagram(5000, Some(1), &[], &[1])).unwrap();
    assert_eq!(d, Disposition::Delivered);
    assert_eq!(out.len(), 1);
    assert_eq!(out[0].tcp.acknowledgment_number, 1001);
    assert_eq!(out[0].tcp.sequence_number, 1);
    assert_eq!(table.get(&peer_quad()).unwrap().connection_state, ConnectionState::SynRcvd);
}

#[test]
fn quad_reads_addresses_big_endian() {
    let ip = Ipv4Fields { source: [1, 2, 3, 4], destination: [5, 6, 7, 8], time_to_live: 1, protocol: 6 };
    let t = TcpFields {
        source_port: 1,
        destination_port: 2,
        sequence_number: 0,
        acknowledgment_number: 0,
        window_size: 0,
        syn: false,
        ack: false,
        fin: false,
        rst: false,
    };
    assert_eq!(quad(&ip, &t), Quad { src_addr: 0x0102_0304, src_port: 1, dst_addr: 0x0506_0708, dst_port: 2 });
}

#[test]
fn serialized_segment_parses_back() {
    let seg = OutSegment {
        ip: Ipv4Fields { source: LOCAL, destination: PEER, time_to_live: 64, protocol: 6 },
        tcp: TcpFields {
            source_port: 80,
            destination_port: 40000,
            sequence_number: 0x0102_0304,
            acknowledgment_number: 1001,
            window_size: 8,
            syn: true,
            ack: true,
            fin: false,
            rst: false,
        },
        payload: Vec::new(),
    };
    let bytes = serialize_segment(&seg);
    assert_eq!(bytes.len(), 40);
    let ip = Ipv4HeaderSlice::from_slice(&bytes).unwrap();
    assert_eq!(ip.source(), LOCAL);
    assert_eq!(ip.destination(), PEER);
    assert_eq!(ip.ttl(), 64);
    assert_eq!(ip.protocol(), 6);
    assert_eq!(ip.total_len(), 40);
    assert_eq!(ip.to_header().calc_header_checksum().unwrap(), ip.header_checksum());
    assert_ne!(ip.header_checksum(), 0);
    let tcp = TcpHeaderSlice::from_slice(&bytes[20..]).unwrap();
    assert_eq!(tcp.source_port(), 80);
    assert_eq!(tcp.destination_port(), 40000);
    assert_eq!(tcp.sequence_number(), 0x0102_0304);
    assert_eq!(tcp.acknowledgment_number(), 1001);
    assert_eq!(tcp.window_size(), 8);
    assert!(tcp.syn() && tcp.ack() && !tcp.fin() && !tcp.rst());
    assert_eq!(tcp.calc_checksum_ipv4(&ip, &[]).unwrap(), tcp.checksum());
    assert_ne!(tcp.checksum(), 0);
}

#[test]
fn serialized_segment_carries_payload() {
    let seg = OutSegment {
        ip: Ipv4Fields { source: LOCAL, destination: PEER, time_to_live: 64, protocol: 6 },
        tcp: TcpFields {
            source_port: 1,
            destination_port: 2,
            sequence_number: 3,
            acknowledgment_number: 4,
            window_size: 5,
            syn: false,
            ack: true,
            fin: true,
            rst: false,
        },
        payload: vec![9, 8, 7],
    };
    let bytes = serialize_segment(&seg);
    assert_eq!(bytes.len(), 43);
    assert_eq!(&bytes[40..], &[9, 8, 7]);
    assert_eq!(bytes[33], 0b0001_0001);
    let ip = Ipv4HeaderSlice::from_slice(&bytes).unwrap();
    assert_eq!(ip.total_len(), 43);
}
