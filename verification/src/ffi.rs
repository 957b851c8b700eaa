//! The binding of the native backend's exported symbol.
//!
//! The backend artifact exports one function over the platform C
//! calling convention: an add on two unsigned 64-bit integers. Its
//! whole behaviour is two's-complement addition on the return width,
//! so the binding is written out here and proved against that exact
//! statement. The declared signature must match the artifact's
//! exported one bit for bit; that pairing is fixed at build time by
//! the link directives the orchestrator publishes.

use vstd::prelude::*;

verus! {

/// The sum of `a` and `b` reduced onto the 64-bit return width: the
/// exact sum where it fits, otherwise the sum less 2^64.
pub open spec fn wrapping_sum(a: u64, b: u64) -> u64 {
    if a + b <= u64::MAX {
        (a + b) as u64
    } else {
        (a + b - 0x1_0000_0000_0000_0000) as u64
    }
}

/// The backend's add symbol. For every pair whose sum fits the return
/// width the exact sum comes back; a larger sum wraps modulo 2^64.
/// The wrap is part of the stated contract, never a silent
/// truncation.
pub fn native_add(a: u64, b: u64) -> (r: u64)
    ensures
        a + b <= u64::MAX ==> r == a + b,
        r == wrapping_sum(a, b),
{
    if a <= u64::MAX - b {
        a + b
    } else {
        (a - (u64::MAX - b)) - 1
    }
}

} // verus!
