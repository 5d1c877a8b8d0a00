use raytracer::scalar::Scalar;

fn s(x: f32) -> Scalar {
    Scalar::from_bits(x.to_bits())
}

fn samples() -> Vec<f32> {
    vec![
        0.0,
        -0.0,
        1.0,
        -1.0,
        0.001,
        0.5,
        0.999_999_94,
        1.000_000_1,
        2.5,
        -2.5,
        1.0e-40,
        -1.0e-40,
        f32::MIN_POSITIVE,
        f32::MAX,
        f32::MIN,
        f32::INFINITY,
        f32::NEG_INFINITY,
        f32::NAN,
        -f32::NAN,
        f32::EPSILON,
    ]
}

#[test]
fn lt_agrees_with_the_hardware_on_every_pair() {
    for a in samples() {
        for b in samples() {
            assert_eq!(s(a).lt(s(b)), a < b, "{a} < {b}");
        }
    }
}

#[test]
fn gt_agrees_with_the_hardware_on_every_pair() {
    for a in samples() {
        for b in samples() {
            assert_eq!(s(a).gt(s(b)), a > b, "{a} > {b}");
        }
    }
}

#[test]
fn the_two_zeros_are_not_ordered() {
    assert!(!s(0.0).lt(s(-0.0)));
    assert!(!s(-0.0).lt(s(0.0)));
}

#[test]
fn nan_is_below_and_above_nothing() {
    for a in samples() {
        assert!(!s(f32::NAN).lt(s(a)));
        assert!(!s(a).lt(s(f32::NAN)));
        assert!(!s(f32::NAN).gt(s(a)));
    }
}

#[test]
fn is_nan_agrees_with_the_hardware() {
    for a in samples() {
        assert_eq!(s(a).is_nan(), a.is_nan());
    }
}

#[test]
fn neg_flips_the_sign_bit_only() {
    for a in samples() {
        assert_eq!(s(a).neg().to_bits(), (-a).to_bits());
    }
    assert_eq!(s(0.0).neg().to_bits(), 0x8000_0000);
}

#[test]
fn zero_and_one_have_their_encodings() {
    assert_eq!(Scalar::zero().to_bits(), 0.0f32.to_bits());
    assert_eq!(Scalar::one().to_bits(), 1.0f32.to_bits());
    assert_eq!(Scalar::from_bits(0x3f00_0000).to_bits(), 0.5f32.to_bits());
}
