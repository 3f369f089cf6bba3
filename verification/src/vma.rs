use vstd::prelude::*;

verus! {

/// A 64-bit virtual memory address. Arithmetic wraps modulo 2^64; ordering is
/// unsigned numeric. No validity invariant beyond representability.
#[derive(Clone, Copy, Debug, PartialEq, Eq, Structural)]
pub struct VMA(pub u64);

impl VMA {
    /// Address plus a byte offset, wrapping modulo 2^64.
    pub fn wrapping_add(self, off: u64) -> (r: VMA)
        ensures
            r.0 == self.0.wrapping_add(off),
    {
        VMA(self.0.wrapping_add(off))
    }

    /// Address minus a byte offset, wrapping modulo 2^64.
    pub fn wrapping_sub(self, off: u64) -> (r: VMA)
        ensures
            r.0 == self.0.wrapping_sub(off),
    {
        VMA(self.0.wrapping_sub(off))
    }

    /// Unsigned numeric comparison.
    pub fn lt(self, other: VMA) -> (r: bool)
        ensures
            r == (self.0 < other.0),
    {
        self.0 < other.0
    }

    /// Unsigned numeric comparison.
    pub fn le(self, other: VMA) -> (r: bool)
        ensures
            r == (self.0 <= other.0),
    {
        self.0 <= other.0
    }
}

} // verus!
