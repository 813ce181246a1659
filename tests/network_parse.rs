use tcp_endpoint::ipv4::{parse_ipv4, Ipv4ParseError};
use tcp_endpoint::tuntap::{Flags, Protocol, TunTapError, TunTapHeader};

#[test]
fn tun_tap_parser() {
    let input: &[u8] = &[0, 0, 8, 0, 2, 3];
    let header = TunTapHeader::from_slice(input).unwrap();
    assert!(matches!(header.flags, Flags::NoFlagsSet));
    assert!(matches!(header.protocol, Some(Protocol::Ipv4)));
}

#[test]
#[should_panic]
fn tun_tap_parser_missing_arguments() {
    let input: &[u8] = &[0];
    TunTapHeader::from_slice(input).unwrap();
}

#[test]
fn tun_tap_too_short_is_an_error() {
    assert_eq!(TunTapHeader::from_slice(&[0]).unwrap_err(), TunTapError::TooShort);
    assert_eq!(TunTapHeader::from_slice(&[0, 1, 8]).unwrap_err(), TunTapError::TooShort);
}

#[test]
fn tun_tap_unknown_flags() {
    assert_eq!(TunTapHeader::from_slice(&[0, 3, 8, 0]).unwrap_err(), TunTapError::UnknownFlags);
}

#[test]
fn tun_tap_no_packet_information() {
    let header = TunTapHeader::from_slice(&[0x10, 0x00]).unwrap();
    assert_eq!(header.flags(), Flags::IffNoPi);
    assert_eq!(header.protocol(), None);
    assert_eq!(header.header_len(), 2);
}

#[test]
fn tun_tap_tun_and_tap_flags() {
    let tun = TunTapHeader::from_slice(&[0, 1, 0x86, 0xdd]).unwrap();
    assert_eq!(tun.flags(), Flags::IffTun);
    assert_eq!(tun.protocol(), Some(Protocol::Other));
    assert_eq!(tun.header_len(), 4);
    let tap = TunTapHeader::from_slice(&[0, 2, 8, 0]).unwrap();
    assert_eq!(tap.flags(), Flags::IffTap);
    assert_eq!(tap.protocol(), Some(Protocol::Ipv4));
}

#[test]
fn placeholder_test() {
    let input: &[u8] = &[
        69, 0, 0, 84, 71, 99, 64, 0, 64, 1, 113, 242, 192, 168, 0, 1, 192, 168, 0, 2, 8, 0, 76,
        178, 0, 24, 0, 1, 67, 191, 123, 99, 0, 0, 0, 0, 38, 63, 7, 0, 0, 0, 0, 16, 17, 18, 19,
        20, 21, 22, 23, 24, 25, 26, 27, 28, 29, 30, 31, 32, 33, 34, 35, 36, 37, 38, 39, 40, 41,
        42, 43, 44, 45, 46, 47, 48, 49, 50, 51, 52, 53, 54, 55,
    ];
    let output = parse_ipv4(input).unwrap();
    let remaining = output.0;
    let header = output.1;

    assert_eq!(
        remaining,
        &[
            8, 0, 76, 178, 0, 24, 0, 1, 67, 191, 123, 99, 0, 0, 0, 0, 38, 63, 7, 0, 0, 0, 0,
            16, 17, 18, 19, 20, 21, 22, 23, 24, 25, 26, 27, 28, 29, 30, 31, 32, 33, 34, 35, 36,
            37, 38, 39, 40, 41, 42, 43, 44, 45, 46, 47, 48, 49, 50, 51, 52, 53, 54, 55
        ]
    );
    assert_eq!(header.version, 0b0100); // 4
    assert_eq!(header.ihl, 0b0101); // 5
    assert_eq!(header.type_of_service, 0);
    assert_eq!(header.total_length, 84);
    assert_eq!(header.identification, 18275);
    assert_eq!(header.flags, 0b010); // 2
    assert_eq!(header.fragment_offset, 0);
    assert_eq!(header.time_to_live, 64);
    assert_eq!(header.protocol, 1);
    assert_eq!(header.header_checksum, 29170);
    assert_eq!(header.source_address, [192, 168, 0, 1]);
    assert_eq!(header.destination_address, [192, 168, 0, 2]);
}

#[test]
fn parse_ipv4_too_short() {
    let input = [69u8; 19];
    assert_eq!(parse_ipv4(&input).unwrap_err(), Ipv4ParseError::TooShort);
}

#[test]
fn parse_ipv4_fragment_offset_and_flags() {
    let mut input = [0u8; 20];
    input[0] = 0x46;
    input[6] = 0b0011_0001;
    input[7] = 0x02;
    let (rest, header) = parse_ipv4(&input).unwrap();
    assert!(rest.is_empty());
    assert_eq!(header.ihl, 6);
    assert_eq!(header.flags, 1);
    assert_eq!(header.fragment_offset, 0x1102);
}
