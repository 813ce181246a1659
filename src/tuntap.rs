//! The four-byte packet-information prefix that a TUN/TAP device puts before
//! each frame: two bytes of flags and, unless the device runs without packet
//! information, two bytes of protocol (both big-endian).
use vstd::prelude::*;
use crate::wire::{be16, take_16b};

verus! {

/// The device flags of a packet-information prefix.
#[derive(Debug, Clone, Copy, PartialEq, Eq, Structural)]
pub enum Flags {
    NoFlagsSet,
    IffNoPi,
    IffTun,
    IffTap,
}

/// The protocol of the frame that follows the prefix.
#[derive(Debug, Clone, Copy, PartialEq, Eq, Structural)]
pub enum Protocol {
    Ipv4,
    Other,
}

/// Why a packet-information prefix could not be read.
#[derive(Debug, Clone, Copy, PartialEq, Eq, Structural)]
pub enum TunTapError {
    /// The input ends before the prefix does.
    TooShort,
    /// The flags are none of the four known values.
    UnknownFlags,
}

/// A packet-information prefix.
#[derive(Debug, Clone, Copy)]
pub struct TunTapHeader {
    pub flags: Flags,
    /// Absent when the device runs without packet information.
    pub protocol: Option<Protocol>,
}

/// `IFF_NO_PI`
pub const FLAG_NO_PI: u16 = 0x1000;

/// `IFF_TUN`
pub const FLAG_TUN: u16 = 0x0001;

/// `IFF_TAP`
pub const FLAG_TAP: u16 = 0x0002;

/// EtherType of IPv4.
pub const ETHERTYPE_IPV4: u16 = 0x0800;

/// The flags that a 16-bit value stands for, if any.
pub open spec fn flags_of(v: u16) -> Option<Flags> {
    if v == 0 {
        Some(Flags::NoFlagsSet)
    } else if v == FLAG_NO_PI {
        Some(Flags::IffNoPi)
    } else if v == FLAG_TUN {
        Some(Flags::IffTun)
    } else if v == FLAG_TAP {
        Some(Flags::IffTap)
    } else {
        None
    }
}

/// The protocol that a 16-bit value stands for.
pub open spec fn protocol_of(v: u16) -> Protocol {
    if v == ETHERTYPE_IPV4 {
        Protocol::Ipv4
    } else {
        Protocol::Other
    }
}

/// Length in bytes of a prefix with the given flags.
pub open spec fn prefix_len(f: Flags) -> int {
    if f is IffNoPi {
        2
    } else {
        4
    }
}

/// The flags that a 16-bit value stands for, if any.
fn parse_flags(v: u16) -> (r: Option<Flags>)
    ensures
        r == flags_of(v),
{
    if v == 0 {
        Some(Flags::NoFlagsSet)
    } else if v == FLAG_NO_PI {
        Some(Flags::IffNoPi)
    } else if v == FLAG_TUN {
        Some(Flags::IffTun)
    } else if v == FLAG_TAP {
        Some(Flags::IffTap)
    } else {
        None
    }
}

/// The protocol that a 16-bit value stands for.
fn parse_protocol(v: u16) -> (r: Protocol)
    ensures
        r == protocol_of(v),
{
    if v == ETHERTYPE_IPV4 {
        Protocol::Ipv4
    } else {
        Protocol::Other
    }
}

impl TunTapHeader {
    /// Reads a prefix from the start of `slice`: the flags, then the protocol
    /// unless the flags say there is no packet information.
    pub fn from_slice(slice: &[u8]) -> (r: Result<TunTapHeader, TunTapError>)
        ensures
            slice@.len() < 2 ==> r == Err::<TunTapHeader, TunTapError>(TunTapError::TooShort),
            slice@.len() >= 2 ==> match flags_of(be16(slice@, 0) as u16) {
                None => r == Err::<TunTapHeader, TunTapError>(TunTapError::UnknownFlags),
                Some(f) => if slice@.len() < prefix_len(f) {
                    r == Err::<TunTapHeader, TunTapError>(TunTapError::TooShort)
                } else {
                    r matches Ok(h) && h.flags == f && h.protocol == if f is IffNoPi {
                        None
                    } else {
                        Some(protocol_of(be16(slice@, 2) as u16))
                    }
                },
            },
    {
        if slice.len() < 2 {
            return Err(TunTapError::TooShort);
        }
        let flags = match parse_flags(take_16b(slice, 0)) {
            Some(f) => f,
            None => return Err(TunTapError::UnknownFlags),
        };
        let protocol = if let Flags::IffNoPi = flags {
            None
        } else {
            if slice.len() < 4 {
                return Err(TunTapError::TooShort);
            }
            Some(parse_protocol(take_16b(slice, 2)))
        };
        Ok(TunTapHeader { flags, protocol })
    }

    pub fn flags(&self) -> (r: Flags)
        ensures
            r == self.flags,
    {
        self.flags
    }

    pub fn protocol(&self) -> (r: Option<Protocol>)
        ensures
            r == self.protocol,
    {
        self.protocol
    }

    /// Length in bytes of the prefix.
    pub fn header_len(&self) -> (r: usize)
        ensures
            r == prefix_len(self.flags),
    {
        if let Flags::IffNoPi = self.flags {
            2
        } else {
            4
        }
    }
}

} // verus!
