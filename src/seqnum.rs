//! Sequence numbers live in the integers modulo 2^32; every comparison
//! between them is made relative to a starting point.
use vstd::prelude::*;

verus! {

/// The number of distinct sequence numbers.
pub open spec fn seq_space() -> int {
    0x1_0000_0000
}

/// `a + b` in sequence space.
pub open spec fn seq_add(a: u32, b: int) -> u32 {
    ((a + b) % seq_space()) as u32
}

/// How far `x` lies ahead of `start`, walking forward in sequence space.
pub open spec fn seq_dist(start: u32, x: u32) -> int {
    (x - start) % seq_space()
}

/// `x` lies in the half-open window `[start, end)` of sequence space.
pub open spec fn in_window(start: u32, x: u32, end: u32) -> bool {
    seq_dist(start, x) < seq_dist(start, end)
}

/// `una < ack <= nxt` in sequence space: the acknowledgment covers something
/// that was sent and not yet acknowledged.
pub open spec fn ack_in_window(una: u32, ack: u32, nxt: u32) -> bool {
    0 < seq_dist(una, ack) && seq_dist(una, ack) <= seq_dist(una, nxt)
}

/// `una <= ack <= nxt` in sequence space.
pub open spec fn ack_in_closed_window(una: u32, ack: u32, nxt: u32) -> bool {
    seq_dist(una, ack) <= seq_dist(una, nxt)
}

proof fn lemma_seq_dist_cases(start: u32, x: u32)
    ensures
        start <= x ==> seq_dist(start, x) == x - start,
        x < start ==> seq_dist(start, x) == x - start + seq_space(),
{
}

/// Adding in two steps lands where adding at once does.
pub proof fn lemma_seq_add_twice(a: u32, b: int, c: int)
    requires
        0 <= b,
        0 <= c,
    ensures
        seq_add(seq_add(a, b), c) == seq_add(a, b + c),
{
    vstd::arithmetic::div_mod::lemma_add_mod_noop(a + b, c, seq_space());
    vstd::arithmetic::div_mod::lemma_mod_twice(c, seq_space());
    vstd::arithmetic::div_mod::lemma_mod_bound(a + b, seq_space());
}

/// Only the residue of the addend modulo 2^32 matters.
pub proof fn lemma_seq_add_mod(a: u32, b: int)
    ensures
        seq_add(a, b) == seq_add(a, b % seq_space()),
{
    vstd::arithmetic::div_mod::lemma_add_mod_noop(a as int, b, seq_space());
    vstd::arithmetic::div_mod::lemma_mod_twice(b, seq_space());
    vstd::arithmetic::div_mod::lemma_add_mod_noop(a as int, b % seq_space(), seq_space());
}

/// Wrapping addition of sequence numbers.
pub fn seq_wrapping_add(a: u32, b: u32) -> (r: u32)
    ensures
        r == seq_add(a, b as int),
{
    a.wrapping_add(b)
}

/// Whether `x` lies in `[start, end)` in sequence space; the window is empty
/// when `start == end` and wraps past 2^32 when `end < start`.
pub fn in_wrapping_range(start: u32, x: u32, end: u32) -> (r: bool)
    ensures
        r == in_window(start, x, end),
{
    proof {
        lemma_seq_dist_cases(start, x);
        lemma_seq_dist_cases(start, end);
    }
    start <= x && (x < end || (x > end && start > end)) || x < end && start > end
}

/// Whether an acknowledgment number is acceptable: `una < ack <= nxt` in
/// sequence space.
pub fn is_ack_acceptable(una: u32, ack: u32, nxt: u32) -> (r: bool)
    ensures
        r == ack_in_window(una, ack, nxt),
{
    proof {
        lemma_seq_dist_cases(una, ack);
        lemma_seq_dist_cases(una, nxt);
    }
    una < ack && (ack <= nxt || (ack >= nxt && una > nxt)) || ack <= nxt && una > nxt
}

/// Whether `una <= ack <= nxt` in sequence space.
pub fn is_ack_in_closed_window(una: u32, ack: u32, nxt: u32) -> (r: bool)
    ensures
        r == ack_in_closed_window(una, ack, nxt),
{
    proof {
        lemma_seq_dist_cases(una, ack);
        lemma_seq_dist_cases(una, nxt);
    }
    una <= ack && (ack <= nxt || (ack >= nxt && una > nxt)) || ack <= nxt && una > nxt
}

/// The wrap-aware window test agrees with plain integer comparison when the
/// window does not wrap, and with the complement of `[end, start)` when it
/// does.
pub proof fn lemma_in_window_matches_naive(start: u32, x: u32, end: u32)
    ensures
        start <= end ==> (in_window(start, x, end) <==> start <= x && x < end),
        start > end ==> (in_window(start, x, end) <==> !(end <= x && x < start)),
{
    lemma_seq_dist_cases(start, x);
    lemma_seq_dist_cases(start, end);
}

} // verus!
