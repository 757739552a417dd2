//! The unpacked operand format and the multiply-accumulate datapath.

use vstd::prelude::*;

verus! {

use vstd::std_specs::bits::axiom_u64_leading_zeros;
use vstd::std_specs::bits::u64_leading_zeros;

/// One operand of the datapath in unpacked form: a sign, an unbiased
/// exponent, and a Q30 fixed-point significand.
///
/// For a non-zero value the significand is normalized: bit 30 is the
/// implicit leading one, so the significand lies in `[2^30, 2^31)` and
/// represents a value in `[1.0, 2.0)`. Numeric zero is a significand of
/// exactly `0` with the exponent pinned below the representable range;
/// its sign is still meaningful (negative zero).
#[derive(Clone, Copy)]
pub struct UnpackedFloat {
    pub sign: bool,
    pub exponent: i32,
    pub mantissa: u32,
}

impl UnpackedFloat {
    /// The invariant of the unpacked form: the significand is either the
    /// canonical zero (with the exponent pinned to `-127`) or normalized
    /// with the exponent in the range the decoder can produce.
    pub open spec fn wf(self) -> bool {
        if self.mantissa == 0 {
            self.exponent == -127
        } else {
            (self.mantissa >> 30u32) == 1 && -126 <= self.exponent <= 128
        }
    }
}

/// Right-shift `x` by `s`, OR-ing a sticky bit into the result whenever a
/// set bit is shifted out. Shifts of the whole width or more collapse the
/// value to one sticky bit. A non-positive shift leaves `x` unchanged.
pub open spec fn spec_sticky_lsr(x: u64, s: int) -> u64 {
    if s <= 0 {
        x
    } else if s >= 64 {
        if x == 0 {
            0u64
        } else {
            1u64
        }
    } else if x & (((1u64 << (s as u64)) - 1) as u64) == 0 {
        x >> (s as u64)
    } else {
        (x >> (s as u64)) | 1u64
    }
}

/// What the decoder produces for a packed 32-bit bit pattern: the sign
/// bit, the exponent unbiased by 127, and the 23-bit fraction with its
/// implicit leading one shifted up into Q30 position. A zero exponent
/// field (signed zero or subnormal) flushes to the zero representation,
/// keeping only the sign.
pub open spec fn spec_unpack(x: u32) -> UnpackedFloat {
    let sign = (x >> 31u32) != 0;
    let exp_raw = (x >> 23u32) & 0xff;
    let frac_raw = x & 0x7fffff;
    if exp_raw == 0 {
        UnpackedFloat { sign, exponent: -127i32, mantissa: 0 }
    } else {
        UnpackedFloat {
            sign,
            exponent: (exp_raw - 127) as i32,
            mantissa: (frac_raw | 0x800000) << 7u32,
        }
    }
}

/// What the encoder produces for an unpacked value: the Q30 significand is
/// split into 24 kept bits and 7 error bits, the error bits decide a
/// round-to-nearest-even step (with a carry into the exponent when rounding
/// overflows the implicit-one position), and the biased exponent then
/// selects between flush-to-zero underflow, saturation to the largest
/// finite magnitude, and the ordinary packed layout.
pub open spec fn spec_pack(f: UnpackedFloat) -> u32 {
    let kept = f.mantissa >> 7u32;
    let error = f.mantissa & 0x7f;
    let round_up = error > 0x40 || (error == 0x40 && (kept & 1) == 1);
    let carry = round_up && (((kept + 1) as u32) >> 24u32) != 0;
    let mantissa = if carry {
        ((kept + 1) as u32) >> 1u32
    } else if round_up {
        (kept + 1) as u32
    } else {
        kept
    };
    let biased_exp = if carry {
        f.exponent + 128
    } else {
        f.exponent + 127
    };
    if biased_exp <= 0 {
        if f.sign {
            0x80000000u32
        } else {
            0u32
        }
    } else if biased_exp > 255 {
        if f.sign {
            0xffffffffu32
        } else {
            0x7fffffffu32
        }
    } else {
        (if f.sign {
            0x80000000u32
        } else {
            0u32
        }) | ((biased_exp as u32) << 23u32) | (mantissa & 0x7fffff)
    }
}

/// What the renormalizer produces for a wide unnormalized significand: a
/// zero significand collapses to the canonical positive zero; otherwise
/// the leading one is shifted up to bit 63, the word is compressed back
/// to Q30 with a sticky right shift of 33, and the exponent absorbs the
/// net shift. The multiply stage over-produces by `2 * 30 + 1` bits of a
/// 64-bit word, so a leading-zero count of 3 means no exponent change.
pub open spec fn spec_reduce(sign: bool, exponent: int, mantissa_long: u64) -> UnpackedFloat {
    if mantissa_long == 0 {
        UnpackedFloat { sign: false, exponent: -127i32, mantissa: 0 }
    } else {
        let lz = u64_leading_zeros(mantissa_long);
        let shifted = mantissa_long << (lz as u64);
        UnpackedFloat {
            sign,
            exponent: (exponent + 3 - lz) as i32,
            mantissa: spec_sticky_lsr(shifted, 33) as u32,
        }
    }
}

/// What the multiply-accumulate core produces: the product of the two
/// multiplicands (sign by XOR, exponents summed, Q30 significands
/// multiplied into a Q60 wide word, renormalized by one bit if the
/// product carried), then either a short-circuit (a zero product returns
/// the addend exactly; a zero addend renormalizes the product alone) or
/// an alignment of the addend to the product's Q60 scale by exponent
/// difference, a sticky-shifted add or subtract of the magnitudes, and a
/// final renormalization anchored at the larger operand's exponent. On
/// exact exponent equality with opposite signs, the larger raw magnitude
/// decides which operand anchors the result.
pub open spec fn spec_fmadd(op1: UnpackedFloat, op2: UnpackedFloat, addend: UnpackedFloat) -> UnpackedFloat {
    let product_sign = op1.sign != op2.sign;
    let raw_product = (op1.mantissa as u64 * op2.mantissa as u64) as u64;
    let carried = (raw_product >> 61u64) != 0;
    let product_mantissa = if carried {
        raw_product >> 1u64
    } else {
        raw_product
    };
    let product_exponent: int = if carried {
        op1.exponent + op2.exponent + 1
    } else {
        op1.exponent + op2.exponent
    };
    if product_mantissa == 0 {
        addend
    } else if addend.mantissa == 0 {
        spec_reduce(product_sign, product_exponent, product_mantissa)
    } else {
        let exp_diff = product_exponent - addend.exponent;
        let addend_mantissa = (addend.mantissa as u64) << 30u64;
        if addend.sign == product_sign {
            if exp_diff > 0 {
                spec_reduce(product_sign, product_exponent,
                    (product_mantissa + spec_sticky_lsr(addend_mantissa, exp_diff)) as u64)
            } else {
                spec_reduce(addend.sign, addend.exponent as int,
                    (addend_mantissa + spec_sticky_lsr(product_mantissa, -exp_diff)) as u64)
            }
        } else {
            if exp_diff > 0 || (exp_diff == 0 && product_mantissa > addend_mantissa) {
                spec_reduce(product_sign, product_exponent,
                    (product_mantissa - spec_sticky_lsr(addend_mantissa, exp_diff)) as u64)
            } else {
                spec_reduce(addend.sign, addend.exponent as int,
                    (addend_mantissa - spec_sticky_lsr(product_mantissa, -exp_diff)) as u64)
            }
        }
    }
}

/// Every decoded value satisfies the unpacked-form invariant: it is
/// either the canonical zero or normalized with an exponent the 8-bit
/// biased field can produce.
pub proof fn lemma_unpack_wf(x: u32)
    ensures
        spec_unpack(x).wf(),
{
    if (x >> 23u32) & 0xff != 0 {
        assert((x >> 23u32) & 0xff < 256) by (bit_vector);
        assert((((x & 0x7fffff) | 0x800000) << 7u32) >> 30u32 == 1 && (((x & 0x7fffff)
            | 0x800000) << 7u32) != 0) by (bit_vector);
    }
}

/// A sticky right shift never increases the value.
proof fn lemma_sticky_le(x: u64, s: int)
    ensures
        spec_sticky_lsr(x, s) <= x,
{
    if 1 <= s < 64 {
        let su = s as u64;
        assert((x >> su) <= x) by (bit_vector)
            requires
                1 <= su < 64,
        ;
        assert(x & (((1u64 << su) - 1) as u64) != 0 ==> ((x >> su) | 1u64) <= x) by (bit_vector)
            requires
                1 <= su < 64,
        ;
    }
}

/// A sticky right shift by at least one bit of a value below `2^61`
/// lands below `2^60`.
proof fn lemma_sticky_halved(x: u64, s: int)
    requires
        1 <= s,
        x < 0x2000000000000000,
    ensures
        spec_sticky_lsr(x, s) < 0x1000000000000000,
{
    if s < 64 {
        let su = s as u64;
        assert((x >> su) < 0x1000000000000000u64 && ((x >> su) | 1u64)
            < 0x1000000000000000u64) by (bit_vector)
            requires
                1 <= su < 64,
                x < 0x2000000000000000u64,
        ;
    }
}

impl UnpackedFloat {
    /// Decode a packed 32-bit float: extract the sign, unbias the
    /// exponent, and move the fraction with its implicit leading one into
    /// Q30 fixed point. Decoding is exact for normalized inputs; a zero
    /// exponent field flushes to signed zero.
    pub fn unpack(x: u32) -> (r: UnpackedFloat)
        ensures
            r == spec_unpack(x),
            r.wf(),
    {
        let sign = (x >> 31u32) != 0;
        let exp_raw = (x >> 23u32) & 0xff;
        let frac_raw = x & 0x7fffff;
        if exp_raw == 0 {
            UnpackedFloat { sign, exponent: -127, mantissa: 0 }
        } else {
            proof {
                assert((x >> 23u32) & 0xff < 256) by (bit_vector);
                assert((((x & 0x7fffff) | 0x800000) << 7u32) >> 30u32 == 1
                    && (((x & 0x7fffff) | 0x800000) << 7u32) != 0) by (bit_vector);
            }
            let exponent = (exp_raw as i32) - 127;
            let mantissa = (frac_raw | 0x800000) << 7u32;
            UnpackedFloat { sign, exponent, mantissa }
        }
    }

    /// Encode an unpacked value back into a packed 32-bit float,
    /// performing the single rounding step of the fused pipeline
    /// (round-to-nearest-even over the 7 error bits), then flushing
    /// underflow to signed zero and saturating overflow to the largest
    /// finite magnitude with the correct sign.
    pub fn pack(&self) -> (r: u32)
        requires
            self.exponent <= i32::MAX - 128,
        ensures
            r == spec_pack(*self),
    {
        let mut biased_exp: i32 = self.exponent + 127;

        proof {
            let m = self.mantissa;
            assert(m >> 7u32 <= 0x1ffffff) by (bit_vector);
        }
        let mut rounded_mantissa: u32 = self.mantissa >> 7;
        let error: u32 = self.mantissa & 0x7f;
        let round_up = error > 0x40 || (error == 0x40 && (rounded_mantissa & 1) == 1);
        if round_up {
            rounded_mantissa = rounded_mantissa + 1;
            if (rounded_mantissa >> 24) != 0 {
                rounded_mantissa = rounded_mantissa >> 1;
                biased_exp = biased_exp + 1;
            }
        }

        if biased_exp <= 0 {
            if self.sign {
                0x80000000
            } else {
                0
            }
        } else if biased_exp > 255 {
            if self.sign {
                0xffffffff
            } else {
                0x7fffffff
            }
        } else {
            (if self.sign {
                0x80000000u32
            } else {
                0u32
            }) | ((biased_exp as u32) << 23) | (rounded_mantissa & 0x7fffff)
        }
    }

    /// Renormalize a wide significand into the Q30 unpacked form,
    /// preserving sticky information and adjusting the exponent by the
    /// net shift. This is the single normalization point shared by the
    /// multiply and the add/subtract paths. A zero significand collapses
    /// to the canonical positive zero.
    pub fn reduce_mantissa(sign: bool, exponent: i32, mantissa_long: u64) -> (r: UnpackedFloat)
        requires
            i32::MIN + 64 <= exponent,
            exponent <= i32::MAX - 3,
        ensures
            r == spec_reduce(sign, exponent as int, mantissa_long),
            mantissa_long == 0 ==> r.mantissa == 0 && r.exponent == -127,
            mantissa_long != 0 ==> r.mantissa != 0 && (r.mantissa >> 30u32) == 1 && exponent - 61
                <= r.exponent <= exponent + 3,
    {
        if mantissa_long == 0 {
            UnpackedFloat { sign: false, exponent: -127, mantissa: 0 }
        } else {
            let mantissa_shift: u32 = mantissa_long.leading_zeros();
            proof {
                axiom_u64_leading_zeros(mantissa_long);
            }
            let shifted: u64 = mantissa_long << mantissa_shift as u64;
            let mantissa_wide: u64 = Self::sticky_lsr(shifted, 33);
            proof {
                assert((shifted >> 33u64) < 0x80000000u64 && ((shifted >> 33u64) | 1u64)
                    < 0x80000000u64) by (bit_vector);
                // the leading one lands on bit 63, so bit 30 of the
                // compressed significand is set
                let m = mantissa_long;
                let lu = u64_leading_zeros(m) as u64;
                assert((((m << lu) >> 33u64) >> 30u64) == 1 && ((((m << lu) >> 33u64) | 1u64)
                    >> 30u64) == 1) by (bit_vector)
                    requires
                        lu <= 63,
                        (m >> ((63u64 - lu) as u64)) & 1u64 != 0u64,
                ;
                let w = mantissa_wide;
                assert((w as u32) >> 30u32 == 1 && (w as u32) != 0) by (bit_vector)
                    requires
                        w < 0x80000000u64,
                        w >> 30u64 == 1,
                ;
            }
            let mantissa: u32 = mantissa_wide as u32;
            UnpackedFloat { sign, exponent: exponent + (3 - mantissa_shift as i32), mantissa }
        }
    }

    /// The multiply-accumulate core: multiply the two operands, align the
    /// addend against the product by exponent difference, add or subtract
    /// the magnitudes with sticky shifts, and renormalize. The multiply
    /// and the add form one fused step; the single rounding point is the
    /// encoder. A zero product returns the addend exactly (sign and
    /// zero-ness preserved); a zero addend renormalizes the product alone.
    pub fn fmadd(op1: UnpackedFloat, op2: UnpackedFloat, addend: UnpackedFloat) -> (r: UnpackedFloat)
        requires
            op1.wf(),
            op2.wf(),
            addend.wf(),
        ensures
            r == spec_fmadd(op1, op2, addend),
            r.mantissa == 0 ==> r.exponent == -127,
            r.mantissa != 0 ==> (r.mantissa >> 30u32) == 1,
            -315 <= r.exponent <= 260,
    {
        let product_sign = op1.sign != op2.sign;
        proof {
            let m1 = op1.mantissa;
            let m2 = op2.mantissa;
            assert(m1 == 0 || m1 >> 30u32 == 1 ==> m1 < 0x80000000) by (bit_vector);
            assert(m2 == 0 || m2 >> 30u32 == 1 ==> m2 < 0x80000000) by (bit_vector);
            assert(m1 < 0x80000000 && m2 < 0x80000000 ==> (m1 as u64) * (m2 as u64)
                < 0x4000000000000000) by (nonlinear_arith);
        }
        let raw_product: u64 = (op1.mantissa as u64) * (op2.mantissa as u64);
        let carried = (raw_product >> 61) != 0;
        proof {
            assert(raw_product < 0x4000000000000000u64 && (raw_product >> 61u64) != 0u64
                ==> 0x1000000000000000u64 <= (raw_product >> 1u64)
                    < 0x2000000000000000u64) by (bit_vector);
            assert((raw_product >> 61u64) == 0u64
                ==> raw_product < 0x2000000000000000u64) by (bit_vector);
        }
        let product_mantissa_long: u64 = if carried {
            raw_product >> 1
        } else {
            raw_product
        };
        let product_exponent: i32 = if carried {
            op1.exponent + op2.exponent + 1
        } else {
            op1.exponent + op2.exponent
        };

        if product_mantissa_long == 0 {
            return addend;
        }

        if addend.mantissa == 0 {
            return Self::reduce_mantissa(product_sign, product_exponent, product_mantissa_long);
        }

        proof {
            // Both multiplicands are non-zero here, so the product is a
            // normalized Q60 value in [2^60, 2^61); so is the addend
            // expanded to the product's wide scale.
            let m1 = op1.mantissa;
            let m2 = op2.mantissa;
            assert(raw_product == 0 ==> (raw_product >> 1u64) == 0u64) by (bit_vector);
            assert((m1 as u64) * (m2 as u64) != 0 ==> m1 != 0 && m2 != 0) by (nonlinear_arith);
            assert(m1 >> 30u32 == 1 ==> m1 >= 0x40000000) by (bit_vector);
            assert(m2 >> 30u32 == 1 ==> m2 >= 0x40000000) by (bit_vector);
            assert(m1 >= 0x40000000 && m2 >= 0x40000000 ==> (m1 as u64) * (m2 as u64)
                >= 0x1000000000000000) by (nonlinear_arith);
            assert(0x1000000000000000u64 <= product_mantissa_long < 0x2000000000000000u64);
            let ma = addend.mantissa;
            assert(ma >> 30u32 == 1 ==> 0x1000000000000000u64 <= ((ma as u64) << 30u64)
                < 0x2000000000000000u64) by (bit_vector);
        }
        let exp_diff: i32 = product_exponent - addend.exponent;
        let addend_mantissa_long: u64 = (addend.mantissa as u64) << 30;
        proof {
            assert(0x1000000000000000u64 <= addend_mantissa_long < 0x2000000000000000u64);
        }

        if addend.sign == product_sign {
            if exp_diff > 0 {
                proof {
                    lemma_sticky_le(addend_mantissa_long, exp_diff as int);
                }
                let result_mantissa_long = product_mantissa_long
                    + Self::sticky_lsr(addend_mantissa_long, exp_diff);
                Self::reduce_mantissa(product_sign, product_exponent, result_mantissa_long)
            } else {
                proof {
                    lemma_sticky_le(product_mantissa_long, -exp_diff as int);
                }
                let result_mantissa_long = addend_mantissa_long
                    + Self::sticky_lsr(product_mantissa_long, -exp_diff);
                Self::reduce_mantissa(addend.sign, addend.exponent, result_mantissa_long)
            }
        } else {
            if exp_diff > 0 || (exp_diff == 0 && product_mantissa_long > addend_mantissa_long) {
                proof {
                    if exp_diff > 0 {
                        lemma_sticky_halved(addend_mantissa_long, exp_diff as int);
                    }
                }
                let result_mantissa_long = product_mantissa_long
                    - Self::sticky_lsr(addend_mantissa_long, exp_diff);
                Self::reduce_mantissa(product_sign, product_exponent, result_mantissa_long)
            } else {
                proof {
                    if exp_diff < 0 {
                        lemma_sticky_halved(product_mantissa_long, -exp_diff as int);
                    }
                }
                let result_mantissa_long = addend_mantissa_long
                    - Self::sticky_lsr(product_mantissa_long, -exp_diff);
                Self::reduce_mantissa(addend.sign, addend.exponent, result_mantissa_long)
            }
        }
    }

    /// Sticky right shift: the shifted-out bits are compressed into the
    /// least-significant bit of the result, which preserves exactly the
    /// information round-to-nearest-even needs downstream.
    pub fn sticky_lsr(x: u64, shift_amount: i32) -> (r: u64)
        requires
            0 <= shift_amount,
        ensures
            r == spec_sticky_lsr(x, shift_amount as int),
    {
        if shift_amount == 0 {
            x
        } else if shift_amount >= 64 {
            if x != 0 {
                1
            } else {
                0
            }
        } else {
            let s: u64 = shift_amount as u64;
            proof {
                assert(1 <= s < 64 ==> ((1u64 << s) - 1) >= 0 && (1u64 << s) >= 1) by (bit_vector);
            }
            let mask: u64 = (1u64 << s) - 1;
            if x & mask == 0 {
                x >> s
            } else {
                (x >> s) | 1
            }
        }
    }
}

} // verus!
