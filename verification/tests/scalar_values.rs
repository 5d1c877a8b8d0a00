use raytracer::scalar::Scalar;

fn s(x: f32) -> Scalar {
    Scalar::from_bits(x.to_bits())
}

#[test]
fn truncate_agrees_with_the_cast_of_the_hardware() {
    let samples: [f32; 30] = [
        0.0,
        -0.0,
        0.4,
        0.999_999_94,
        1.0,
        1.5,
        -1.5,
        2.0,
        -2.0,
        254.999,
        255.0,
        255.999,
        256.0,
        -255.999,
        1.0e-40,
        123_456.79,
        8_388_607.5,
        8_388_608.0,
        16_777_216.0,
        16_777_218.0,
        2_147_483_520.0,
        2_147_483_648.0,
        -2_147_483_648.0,
        -2_147_483_904.0,
        4.0e9,
        -4.0e9,
        f32::MAX,
        f32::INFINITY,
        f32::NEG_INFINITY,
        f32::NAN,
    ];
    for x in samples {
        assert_eq!(s(x).truncate(), x as i32, "{x}");
    }
}

#[test]
fn truncate_cuts_towards_zero() {
    assert_eq!(s(2.9).truncate(), 2);
    assert_eq!(s(-2.9).truncate(), -2);
    assert_eq!(s(0.9).truncate(), 0);
    assert_eq!(s(-0.9).truncate(), 0);
}

#[test]
fn truncate_keeps_to_the_range_and_maps_nan_to_zero() {
    assert_eq!(s(3.0e9).truncate(), i32::MAX);
    assert_eq!(s(-3.0e9).truncate(), i32::MIN);
    assert_eq!(s(f32::INFINITY).truncate(), i32::MAX);
    assert_eq!(s(f32::NEG_INFINITY).truncate(), i32::MIN);
    assert_eq!(s(f32::NAN).truncate(), 0);
}

#[test]
fn truncate_agrees_with_the_cast_across_every_exponent() {
    let mut bits: u32 = 0x0000_0001;
    while bits < 0x7f80_0000 {
        let x = f32::from_bits(bits);
        assert_eq!(s(x).truncate(), x as i32, "{x}");
        assert_eq!(s(-x).truncate(), (-x) as i32, "-{x}");
        bits += 0x0013_579b;
    }
}
