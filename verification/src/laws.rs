//! Algebraic laws of the datapath, proved over the spec-level model.

use vstd::prelude::*;

verus! {

use vstd::std_specs::bits::axiom_u64_leading_zeros;
use vstd::std_specs::bits::u64_leading_zeros;

use crate::float::spec_fmadd;
use crate::float::spec_pack;
use crate::float::spec_reduce;
use crate::float::spec_unpack;
use crate::float::UnpackedFloat;
use crate::unit::spec_fma32;

/// The two multiplicands of the fused multiply-add commute: the product's
/// sign (an XOR), exponent (a sum) and significand (a product) are all
/// symmetric in them, so the whole datapath result is identical.
pub proof fn lemma_fmadd_multiplicands_commute(
    op1: UnpackedFloat,
    op2: UnpackedFloat,
    addend: UnpackedFloat,
)
    ensures
        spec_fmadd(op1, op2, addend) == spec_fmadd(op2, op1, addend),
{
    assert(op1.mantissa as u64 * op2.mantissa as u64 == op2.mantissa as u64
        * op1.mantissa as u64) by (nonlinear_arith);
}

/// Multiplicand commutativity at the packed level: swapping the two
/// multiplied operands never changes the packed result.
pub proof fn lemma_fma32_multiplicands_commute(a: u32, b: u32, c: u32)
    ensures
        spec_fma32(a, b, c) == spec_fma32(b, a, c),
{
    lemma_fmadd_multiplicands_commute(spec_unpack(a), spec_unpack(b), spec_unpack(c));
}

/// A wide word whose highest set bit is bit 60 has exactly three leading
/// zeros.
proof fn lemma_clz_of_q60(v: u64)
    requires
        (v >> 60u64) != 0,
        (v >> 61u64) == 0,
    ensures
        u64_leading_zeros(v) == 3,
{
    assert(v == 0 ==> v >> 60u64 == 0) by (bit_vector);
    axiom_u64_leading_zeros(v);
    let l = u64_leading_zeros(v);
    let lu = l as u64;
    assert(lu == 3) by (bit_vector)
        requires
            lu <= 63,
            (v >> ((63u64 - lu) as u64)) & 1u64 != 0u64,
            v >> ((64u64 - lu) as u64) == 0u64,
            (v >> 60u64) != 0u64,
            (v >> 61u64) == 0u64,
    ;
}

/// Renormalizing a normalized operand that was expanded to the wide Q60
/// scale gives back exactly that operand: the leading one sits at bit 60,
/// so the net shift is zero and no sticky bit is produced.
proof fn lemma_reduce_wide_identity(f: UnpackedFloat)
    requires
        f.wf(),
        f.mantissa != 0,
    ensures
        spec_reduce(f.sign, f.exponent as int, (f.mantissa as u64) << 30u64) == f,
{
    let m = f.mantissa;
    let v = (m as u64) << 30u64;
    assert((v >> 60u64) != 0 && (v >> 61u64) == 0 && v != 0) by (bit_vector)
        requires
            v == (m as u64) << 30u64,
            m >> 30u32 == 1,
    ;
    lemma_clz_of_q60(v);
    assert((v << 3u64) >> 33u64 == m as u64 && (v << 3u64) & (((1u64 << 33u64) - 1) as u64)
        == 0) by (bit_vector)
        requires
            v == (m as u64) << 30u64,
            m >> 30u32 == 1,
    ;
}

/// Accumulation through a multiply by one commutes: with a unit
/// multiplicand, `x * 1 + y` and `y * 1 + x` drive the identical aligned
/// add (or cancellation) and produce the identical unpacked result. The
/// one excluded family of inputs is a pair of zeros of opposite sign:
/// there the multiply-by-zero short circuit returns one addend or the
/// other unchanged, and the two signed zeros differ.
pub proof fn lemma_fmadd_one_commutes(fx: UnpackedFloat, fy: UnpackedFloat)
    requires
        fx.wf(),
        fy.wf(),
        !(fx.mantissa == 0 && fy.mantissa == 0 && fx.sign != fy.sign),
    ensures
        spec_fmadd(fx, spec_unpack(0x3f800000), fy) == spec_fmadd(
            fy,
            spec_unpack(0x3f800000),
            fx,
        ),
{
    let one = spec_unpack(0x3f800000);
    assert((0x3f800000u32 >> 31u32) == 0 && ((0x3f800000u32 >> 23u32) & 0xff) == 127 && (
    0x3f800000u32 & 0x7fffff) == 0 && ((0u32 | 0x800000) << 7u32) == 0x40000000) by (bit_vector);
    assert(one.sign == false && one.exponent == 0 && one.mantissa == 0x40000000);

    let mx = fx.mantissa;
    let my = fy.mantissa;
    let vx = (mx as u64) << 30u64;
    let vy = (my as u64) << 30u64;
    // multiplying by the unit significand is exactly a widening shift,
    // and it never carries into the renormalization bit
    assert(mx as u64 * 0x40000000u64 == vx && my as u64 * 0x40000000u64 == vy) by (bit_vector)
        requires
            vx == (mx as u64) << 30u64,
            vy == (my as u64) << 30u64,
    ;
    assert(mx == 0 || mx >> 30u32 == 1 ==> mx < 0x80000000) by (bit_vector);
    assert(my == 0 || my >> 30u32 == 1 ==> my < 0x80000000) by (bit_vector);
    assert((vx >> 61u64) == 0 && (vy >> 61u64) == 0) by (bit_vector)
        requires
            vx == (mx as u64) << 30u64,
            vy == (my as u64) << 30u64,
            mx < 0x80000000,
            my < 0x80000000,
    ;
    assert(mx == 0 ==> vx == 0) by (bit_vector)
        requires
            vx == (mx as u64) << 30u64,
    ;
    assert(my == 0 ==> vy == 0) by (bit_vector)
        requires
            vy == (my as u64) << 30u64,
    ;
    assert(mx >> 30u32 == 1 ==> vx != 0) by (bit_vector)
        requires
            vx == (mx as u64) << 30u64,
    ;
    assert(my >> 30u32 == 1 ==> vy != 0) by (bit_vector)
        requires
            vy == (my as u64) << 30u64,
    ;
    assert(0u64 >> 61u64 == 0 && 0u64 >> 1u64 == 0) by (bit_vector);

    if mx == 0 && my == 0 {
        // both products are zero; each side returns the other operand,
        // and the two zero representations are the same value
        assert(fx.exponent == -127 && fy.exponent == -127);
        assert(fx == fy);
    } else if mx == 0 {
        // one side short-circuits on the zero product and returns `fy`
        // exactly; the other renormalizes `fy` expanded to the wide
        // scale, which gives back `fy` exactly
        lemma_reduce_wide_identity(fy);
    } else if my == 0 {
        lemma_reduce_wide_identity(fx);
    } else {
        // both operands non-zero: the two sides run the aligned add (or
        // subtract) with identical magnitudes, anchors and sticky shifts
        assert(spec_fmadd(fx, one, fy) == spec_fmadd(fy, one, fx));
    }
}

/// Additive commutativity via multiply-by-one at the packed level:
/// `fma(x, 1.0, y)`, `fma(y, 1.0, x)`, `fma(1.0, x, y)` and
/// `fma(1.0, y, x)` all produce the same packed bits. The one excluded
/// family of inputs is a pair of operands that both decode to zero with
/// opposite signs: there the result is one signed zero or the other.
pub proof fn lemma_fma32_one_commutes(x: u32, y: u32)
    requires
        !(spec_unpack(x).mantissa == 0 && spec_unpack(y).mantissa == 0 && spec_unpack(x).sign
            != spec_unpack(y).sign),
    ensures
        spec_fma32(x, 0x3f800000, y) == spec_fma32(y, 0x3f800000, x),
        spec_fma32(0x3f800000, x, y) == spec_fma32(x, 0x3f800000, y),
        spec_fma32(0x3f800000, y, x) == spec_fma32(y, 0x3f800000, x),
{
    crate::float::lemma_unpack_wf(x);
    crate::float::lemma_unpack_wf(y);
    lemma_fmadd_one_commutes(spec_unpack(x), spec_unpack(y));
    lemma_fma32_multiplicands_commute(0x3f800000, x, y);
    lemma_fma32_multiplicands_commute(0x3f800000, y, x);
}

/// Round-trip stability: decoding and re-encoding a packed float with a
/// non-zero exponent field (every normal value), or a signed zero,
/// reproduces the original bit pattern exactly. Decoding is exact for
/// such inputs and the encoder's rounding step sees no error bits.
pub proof fn lemma_unpack_pack_round_trip(x: u32)
    requires
        ((x >> 23u32) & 0xff) != 0 || (x & 0x7fffffff) == 0,
    ensures
        spec_pack(spec_unpack(x)) == x,
{
    if ((x >> 23u32) & 0xff) != 0 {
        assert((x >> 23u32) & 0xff < 256) by (bit_vector);
        assert((((x & 0x7fffff) | 0x800000) << 7u32) >> 7u32 == ((x & 0x7fffff)
            | 0x800000)) by (bit_vector);
        assert((((x & 0x7fffff) | 0x800000) << 7u32) & 0x7f == 0) by (bit_vector);
        assert(((if (x >> 31u32) != 0 {
            0x80000000u32
        } else {
            0u32
        }) | (((x >> 23u32) & 0xff) << 23u32) | (((x & 0x7fffff) | 0x800000) & 0x7fffff))
            == x) by (bit_vector)
            requires
                ((x >> 23u32) & 0xff) != 0,
        ;
    } else {
        assert((x >> 23u32) & 0xff == 0) by (bit_vector)
            requires
                x & 0x7fffffff == 0,
        ;
        assert(0u32 >> 7u32 == 0 && 0u32 & 0x7f == 0) by (bit_vector);
        assert(if (x >> 31u32) != 0 {
            x == 0x80000000
        } else {
            x == 0
        }) by (bit_vector)
            requires
                x & 0x7fffffff == 0,
        ;
    }
}

} // verus!
