//! A userspace TCP endpoint: TUN packet-information headers, IPv4 header
//! parsing, modular sequence-number arithmetic, the per-connection TCP state
//! machine and the connection table that routes segments by four-tuple.
use vstd::prelude::*;

pub mod seqnum;
pub mod tcp;
pub mod tuntap;
pub mod wire;
pub mod connections;
pub mod ipv4;

verus! {

} // verus!
