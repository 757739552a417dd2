//! The one-cycle pipeline register around the multiply-accumulate core.

use vstd::prelude::*;

verus! {

use crate::float::spec_fmadd;
use crate::float::spec_pack;
use crate::float::spec_unpack;
use crate::float::UnpackedFloat;

/// The packed fused-multiply-add of three packed operands: decode all
/// three, run the multiply-accumulate core, and re-encode with the single
/// rounding step.
pub open spec fn spec_fma32(a: u32, b: u32, c: u32) -> u32 {
    spec_pack(spec_fmadd(spec_unpack(a), spec_unpack(b), spec_unpack(c)))
}

/// A single lane's pipeline register: the three most recently latched
/// packed operands. Each step computes `a * b + c` from the operands
/// latched on the previous step, then latches the new ones, modeling a
/// one-cycle latency hardware stage.
pub struct FmaUnit {
    pub a: u32,
    pub b: u32,
    pub c: u32,
    pub q: u32,
}

impl Default for FmaUnit {
    /// A unit that comes out of reset with all registers cleared.
    fn default() -> (r: FmaUnit)
        ensures
            r.a == 0 && r.b == 0 && r.c == 0 && r.q == 0,
    {
        FmaUnit { a: 0, b: 0, c: 0, q: 0 }
    }
}

impl FmaUnit {
    /// Latch `(a, b, c)` and return the fused multiply-add of the
    /// operands that were latched on the previous step: the result
    /// visible at step `n` corresponds to the inputs supplied at step
    /// `n - 1`.
    pub fn step(&mut self, a: u32, b: u32, c: u32) -> (q: u32)
        ensures
            q == spec_fma32(old(self).a, old(self).b, old(self).c),
            final(self).a == a,
            final(self).b == b,
            final(self).c == c,
            final(self).q == old(self).q,
    {
        let unpacked_a = UnpackedFloat::unpack(self.a);
        let unpacked_b = UnpackedFloat::unpack(self.b);
        let unpacked_c = UnpackedFloat::unpack(self.c);

        self.a = a;
        self.b = b;
        self.c = c;
        UnpackedFloat::fmadd(unpacked_a, unpacked_b, unpacked_c).pack()
    }
}

} // verus!
