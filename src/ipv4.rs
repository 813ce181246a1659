//! A plain reader of the fixed twenty-byte part of an IPv4 header (RFC 791),
//! field by field, with the bytes that follow it.
use vstd::prelude::*;
use vstd::slice::slice_subrange;
use crate::wire::{be16, take_16b};

verus! {

/// The fixed part of an IPv4 header (options are not read).
#[derive(Debug, Clone, Copy)]
pub struct IPv4Header {
    pub version: u8,
    pub ihl: u8,
    pub type_of_service: u8,
    pub total_length: u16,
    pub identification: u16,
    pub flags: u8,
    pub fragment_offset: u16,
    pub time_to_live: u8,
    pub protocol: u8,
    pub header_checksum: u16,
    pub source_address: [u8; 4],
    pub destination_address: [u8; 4],
}

/// Why an IPv4 header could not be read.
#[derive(Debug, Clone, Copy, PartialEq, Eq, Structural)]
pub enum Ipv4ParseError {
    /// Fewer than twenty bytes.
    TooShort,
}

/// Length of the fixed part of an IPv4 header.
pub const IPV4_FIXED_LEN: usize = 20;

/// The header that the first twenty bytes of `b` hold.
pub open spec fn ipv4_header_of(b: Seq<u8>) -> IPv4Header {
    IPv4Header {
        version: b[0] / 16,
        ihl: b[0] % 16,
        type_of_service: b[1],
        total_length: be16(b, 2) as u16,
        identification: be16(b, 4) as u16,
        flags: b[6] / 32,
        fragment_offset: ((b[6] % 32) * 256 + b[7]) as u16,
        time_to_live: b[8],
        protocol: b[9],
        header_checksum: be16(b, 10) as u16,
        source_address: [b[12], b[13], b[14], b[15]],
        destination_address: [b[16], b[17], b[18], b[19]],
    }
}

/// Reads the fixed part of an IPv4 header from the start of `input` and
/// returns the bytes after it with the header.
pub fn parse_ipv4(input: &[u8]) -> (r: Result<(&[u8], IPv4Header), Ipv4ParseError>)
    ensures
        input@.len() < IPV4_FIXED_LEN ==> r == Err::<(&[u8], IPv4Header), Ipv4ParseError>(
            Ipv4ParseError::TooShort,
        ),
        input@.len() >= IPV4_FIXED_LEN ==> (r matches Ok((rest, h)) && rest@ == input@.subrange(
            IPV4_FIXED_LEN as int,
            input@.len() as int,
        ) && h == ipv4_header_of(input@)),
{
    if input.len() < IPV4_FIXED_LEN {
        return Err(Ipv4ParseError::TooShort);
    }
    let h = IPv4Header {
        version: input[0] / 16,
        ihl: input[0] % 16,
        type_of_service: input[1],
        total_length: take_16b(input, 2),
        identification: take_16b(input, 4),
        flags: input[6] / 32,
        fragment_offset: ((input[6] % 32) as u16) * 256 + (input[7] as u16),
        time_to_live: input[8],
        protocol: input[9],
        header_checksum: take_16b(input, 10),
        source_address: [input[12], input[13], input[14], input[15]],
        destination_address: [input[16], input[17], input[18], input[19]],
    };
    Ok((slice_subrange(input, IPV4_FIXED_LEN, input.len()), h))
}

} // verus!
