use fma_lane::float::UnpackedFloat;
use fma_lane::unit::FmaUnit;

fn fma_bits(a: u32, b: u32, c: u32) -> u32 {
    FmaUnit { a, b, c, q: 0 }.step(0, 0, 0)
}

#[test]
fn round_trip_normal_values() {
    for x in [
        0x3f800000u32, // 1.0
        0xbf800000,    // -1.0
        0x40490fdb,    // pi
        0xc2c80000,    // -100.0
        0x00800000,    // smallest normal
        0x7f7fffff,    // largest finite
        0xff7fffff,    // most negative finite
        0x3f800001,    // 1.0 + one ulp
    ] {
        assert_eq!(UnpackedFloat::unpack(x).pack(), x);
    }
}

#[test]
fn round_trip_signed_zero() {
    assert_eq!(UnpackedFloat::unpack(0x00000000).pack(), 0x00000000);
    assert_eq!(UnpackedFloat::unpack(0x80000000).pack(), 0x80000000);
}

#[test]
fn subnormal_input_flushes_to_zero() {
    // a subnormal decodes as a zero of its sign and packs back to it
    assert_eq!(UnpackedFloat::unpack(0x00000001).pack(), 0x00000000);
    assert_eq!(UnpackedFloat::unpack(0x807fffff).pack(), 0x80000000);
    // a subnormal multiplicand behaves as zero in the pipeline
    assert_eq!(fma_bits(0x00000001, 0x3f800000, 0x3f800000), 0x3f800000);
}

#[test]
fn fmadd_direct_two_times_three_plus_one() {
    let op1 = UnpackedFloat::unpack(0x40000000);
    let op2 = UnpackedFloat::unpack(0x40400000);
    let addend = UnpackedFloat::unpack(0x3f800000);
    assert_eq!(UnpackedFloat::fmadd(op1, op2, addend).pack(), 0x40e00000);
}

#[test]
fn overflow_saturates_to_max_finite() {
    // 2^127 * 2^127 is far beyond the representable range
    assert_eq!(fma_bits(0x7f000000, 0x7f000000, 0x00000000), 0x7fffffff);
    assert_eq!(fma_bits(0xff000000, 0x7f000000, 0x00000000), 0xffffffff);
}

#[test]
fn underflow_flushes_to_signed_zero() {
    // 2^-126 * 2^-126 is far below the representable range
    assert_eq!(fma_bits(0x00800000, 0x00800000, 0x00000000), 0x00000000);
    assert_eq!(fma_bits(0x80800000, 0x00800000, 0x00000000), 0x80000000);
}

#[test]
fn rounds_up_when_error_exceeds_half() {
    // (1 + 2^-23)^2 = 1 + 2^-22 + 2^-46 rounds to 1 + 2^-22
    assert_eq!(fma_bits(0x3f800001, 0x3f800001, 0x00000000), 0x3f800002);
}

#[test]
fn rounds_half_to_even() {
    // 1.5 * (1 + 2^-23) sits exactly halfway between two representable
    // values; the tie goes to the even mantissa
    assert_eq!(fma_bits(0x3fc00000, 0x3f800001, 0x00000000), 0x3fc00002);
}

#[test]
fn multiply_by_zero_returns_addend_exactly() {
    assert_eq!(fma_bits(0x00000000, 0x3f800000, 0xbf800000), 0xbf800000);
    // a zero addend keeps its sign through the short circuit
    assert_eq!(fma_bits(0x00000000, 0x3f800000, 0x80000000), 0x80000000);
}

#[test]
fn cancellation_yields_positive_zero() {
    // (-1) * 1 + 1 cancels exactly; the canonical zero is positive
    assert_eq!(fma_bits(0xbf800000, 0x3f800000, 0x3f800000), 0x00000000);
}

#[test]
fn multiplicands_commute_on_regression_vector() {
    assert_eq!(
        fma_bits(0xF03479D1, 0x8AEE42BF, 0xBBA48E86),
        fma_bits(0x8AEE42BF, 0xF03479D1, 0xBBA48E86),
    );
}

#[test]
fn one_multiplicand_commutes_on_concrete_values() {
    let x = 0x40490fdbu32; // pi
    let y = 0xc02df854u32; // -e
    let q1 = fma_bits(x, 0x3f800000, y);
    let q2 = fma_bits(y, 0x3f800000, x);
    let q3 = fma_bits(0x3f800000, x, y);
    let q4 = fma_bits(0x3f800000, y, x);
    assert_eq!(q1, q2);
    assert_eq!(q1, q3);
    assert_eq!(q1, q4);
}

#[test]
fn step_returns_previous_operands_result() {
    let mut fma = FmaUnit { a: 0, b: 0, c: 0, q: 0 };
    // the first step computes from the operands latched at construction
    assert_eq!(fma.step(0x3f800000, 0x3f800000, 0x3f800000), 0x00000000);
    // the second step computes 1 * 1 + 1 from the operands of step one,
    // not from the ones supplied now
    assert_eq!(fma.step(0x40000000, 0x40000000, 0x00000000), 0x40000000);
    // and the third sees 2 * 2 + 0 from step two
    assert_eq!(fma.step(0, 0, 0), 0x40800000);
}
