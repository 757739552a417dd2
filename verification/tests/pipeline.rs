use fma_lane::unit::FmaUnit;

#[test]
fn fmadd_one_plus_one() {
    let mut fma = FmaUnit { a: 0x3f800000, b: 0x3f800000, c: 0x3f800000, q: 0 };
    assert_eq!(fma.step(0, 0, 0), 0x40000000);
}

#[test]
fn fmadd_two_plus_one() {
    let mut fma = FmaUnit { a: 0x3f800000, b: 0x40000000, c: 0x3f800000, q: 0 };
    assert_eq!(fma.step(0, 0, 0), 0x40400000);
}

#[test]
fn fmadd_one_plus_two() {
    let mut fma = FmaUnit { a: 0x3f800000, b: 0x3f800000, c: 0x40000000, q: 0 };
    assert_eq!(fma.step(0, 0, 0), 0x40400000);
}

#[test]
fn fmadd_one_minus_one() {
    let mut fma = FmaUnit { a: 0x3f800000, b: 0x3f800000, c: 0xbf800000, q: 0 };
    assert_eq!(fma.step(0, 0, 0), 0x00000000);
}

#[test]
fn fmadd_two_minus_one() {
    let mut fma = FmaUnit { a: 0x3f800000, b: 0x40000000, c: 0xbf800000, q: 0 };
    assert_eq!(fma.step(0, 0, 0), 0x3f800000);
}

#[test]
fn fmadd_one_minus_two() {
    let mut fma = FmaUnit { a: 0x3f800000, b: 0x3f800000, c: 0xc0000000, q: 0 };
    assert_eq!(fma.step(0, 0, 0), 0xbf800000);
}

#[test]
fn fmadd_two_times_two() {
    let mut fma = FmaUnit { a: 0x40000000, b: 0x40000000, c: 0, q: 0 };
    assert_eq!(fma.step(0, 0, 0), 0x40800000);
}

#[test]
fn fmadd_two_times_three_plus_one() {
    let mut fma = FmaUnit { a: 0x40000000, b: 0x40400000, c: 0x3f800000, q: 0 };
    assert_eq!(fma.step(0, 0, 0), 0x40e00000);
}

#[test]
fn rand1() {
    let mut fma = FmaUnit { a: 0xF03479D1, b: 0x8AEE42BF, c: 0xBBA48E86, q: 0 };
    assert_eq!(fma.step(0, 0, 0), 0x38DA7217);
}

#[test]
fn addition_commutes() {
    for _ in 0..100 {
        let x = rand::random::<u32>();
        let y = rand::random::<u32>();

        let q1 = FmaUnit { a: x, b: 0x3f800000, c: y, q: 0 }.step(0, 0, 0);
        let q2 = FmaUnit { a: y, b: 0x3f800000, c: x, q: 0 }.step(0, 0, 0);
        let q3 = FmaUnit { a: 0x3f800000, b: x, c: y, q: 0 }.step(0, 0, 0);
        let q4 = FmaUnit { a: 0x3f800000, b: y, c: x, q: 0 }.step(0, 0, 0);

        assert_eq!(q1, q2);
        assert_eq!(q1, q3);
        assert_eq!(q1, q4);
    }
}

#[test]
fn random_tests() {
    for _ in 0..10000000 {
        let x = rand::random::<u32>();
        let y = rand::random::<u32>();
        let z = rand::random::<u32>();

        let fx = f32::from_bits(x);
        let fy = f32::from_bits(y);
        let fz = f32::from_bits(z);

        if fx.is_nan() || fx.is_infinite() || fx.is_subnormal() {
            continue;
        }
        if fy.is_nan() || fy.is_infinite() || fy.is_subnormal() {
            continue;
        }
        if fz.is_nan() || fz.is_infinite() || fz.is_subnormal() {
            continue;
        }

        let result = fx.mul_add(fy, fz);

        if result.is_nan() || result.is_infinite() || result.is_subnormal() {
            continue;
        }

        let q = FmaUnit { a: x, b: y, c: z, q: 0 }.step(0, 0, 0);

        assert_eq!(result.to_bits(), q)
    }
}
