use rigid4d::scalar::Scalar;

fn s(x: f32) -> Scalar {
    Scalar::from_bits(x.to_bits())
}

fn samples() -> Vec<f32> {
    vec![
        0.0,
        -0.0,
        1.0,
        -1.0,
        0.5,
        -0.5,
        1.0e-5,
        -1.0e-5,
        1.0e-45,
        -1.0e-45,
        3.4028235e38,
        -3.4028235e38,
        f32::INFINITY,
        f32::NEG_INFINITY,
        f32::NAN,
        -f32::NAN,
        f32::from_bits(0x7f80_0001),
        f32::from_bits(0xffff_ffff),
        9.5,
        0.0001,
        0.01,
    ]
}

#[test]
fn comparisons_agree_with_the_machine() {
    for a in samples() {
        for b in samples() {
            assert_eq!(s(a).lt(s(b)), a < b, "{a} < {b}");
            assert_eq!(s(a).le(s(b)), a <= b, "{a} <= {b}");
            assert_eq!(s(a).num_eq(s(b)), a == b, "{a} == {b}");
        }
    }
}

#[test]
fn nan_is_recognised() {
    for a in samples() {
        assert_eq!(s(a).nan(), a.is_nan());
    }
}

#[test]
fn negation_flips_the_sign_bit() {
    for a in samples() {
        assert_eq!(s(a).neg().to_bits(), (-a).to_bits());
    }
}

#[test]
fn max_and_min_ignore_nan() {
    for a in samples() {
        for b in samples() {
            let hi = f32::from_bits(s(a).max(s(b)).to_bits());
            let lo = f32::from_bits(s(a).min(s(b)).to_bits());
            if a.is_nan() && b.is_nan() {
                assert!(hi.is_nan() && lo.is_nan());
            } else {
                assert!(hi == a.max(b), "max({a}, {b})");
                assert!(lo == a.min(b), "min({a}, {b})");
            }
        }
    }
}

#[test]
fn max_of_equal_operands_is_the_first() {
    assert_eq!(s(0.0).max(s(-0.0)), s(0.0));
    assert_eq!(s(-0.0).max(s(0.0)), s(-0.0));
    assert_eq!(s(-0.0).min(s(0.0)), s(-0.0));
}

#[test]
fn zero_is_positive_zero() {
    assert_eq!(Scalar::zero().to_bits(), 0.0f32.to_bits());
}

#[test]
fn comparisons_agree_with_the_machine_on_many_encodings() {
    // A fixed sequence of encodings that visits every exponent.
    let mut state: u64 = 0x9e37_79b9_7f4a_7c15;
    let mut next = move || {
        state = state.wrapping_mul(6364136223846793005).wrapping_add(1442695040888963407);
        (state >> 32) as u32
    };
    for _ in 0..200_000 {
        let (x, y) = (next(), next());
        let (a, b) = (f32::from_bits(x), f32::from_bits(y));
        let (p, q) = (Scalar::from_bits(x), Scalar::from_bits(y));
        assert_eq!(p.lt(q), a < b);
        assert_eq!(p.le(q), a <= b);
        assert_eq!(p.num_eq(q), a == b);
        assert_eq!(p.nan(), a.is_nan());
        assert_eq!(p.neg().to_bits(), (-a).to_bits());
        if !a.is_nan() || !b.is_nan() {
            assert!(f32::from_bits(p.max(q).to_bits()) == a.max(b));
            assert!(f32::from_bits(p.min(q).to_bits()) == a.min(b));
        }
    }
}

#[test]
fn neighbouring_encodings_are_ordered_as_their_numbers() {
    for bits in [0u32, 1, 0x007f_ffff, 0x0080_0000, 0x3f7f_ffff, 0x3f80_0000, 0x7f7f_ffff] {
        let (lo, hi) = (Scalar::from_bits(bits), Scalar::from_bits(bits + 1));
        assert!(lo.lt(hi));
        assert!(hi.neg().lt(lo.neg()));
        assert!(f32::from_bits(bits) < f32::from_bits(bits + 1));
    }
}
