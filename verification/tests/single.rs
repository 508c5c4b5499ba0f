use img_transform::single::Single;

fn single(x: f32) -> Single {
    Single::from_bits(x.to_bits())
}

fn samples() -> Vec<f32> {
    vec![
        0.0,
        -0.0,
        1.0,
        -1.0,
        1.5,
        -14.0,
        std::f32::consts::PI,
        f32::MIN_POSITIVE,
        f32::MAX,
        f32::MIN,
        1.0e-45,
        f32::INFINITY,
        f32::NEG_INFINITY,
        f32::NAN,
        -f32::NAN,
    ]
}

#[test]
fn zero_is_positive_zero() {
    assert_eq!(Single::zero().to_bits(), 0);
    assert_eq!(Single::zero().to_bits(), 0.0f32.to_bits());
}

#[test]
fn one_is_the_float_one() {
    assert_eq!(Single::one().to_bits(), 0x3f80_0000);
    assert_eq!(Single::one().to_bits(), 1.0f32.to_bits());
}

#[test]
fn bits_round_trip() {
    for bits in [0u32, 1, 0x3f80_0000, 0x7f80_0000, 0x8000_0000, 0xffff_ffff] {
        assert_eq!(Single::from_bits(bits).to_bits(), bits);
        assert_eq!(Single::from_bits(bits), Single { bits });
    }
}

#[test]
fn neg_agrees_with_float_negation() {
    for x in samples() {
        assert_eq!(single(x).neg().to_bits(), (-x).to_bits(), "negating {x}");
    }
}

#[test]
fn neg_flips_only_the_sign_bit() {
    assert_eq!(Single::from_bits(0x4160_0000).neg().to_bits(), 0xc160_0000);
    assert_eq!(Single::from_bits(0xc160_0000).neg().to_bits(), 0x4160_0000);
    assert_eq!(Single::from_bits(0).neg().to_bits(), 0x8000_0000);
    assert_eq!(Single::from_bits(0x8000_0000).neg().to_bits(), 0);
}

#[test]
fn neg_twice_is_the_number_itself() {
    for x in samples() {
        assert_eq!(single(x).neg().neg(), single(x));
    }
}

#[test]
fn is_finite_agrees_with_floats() {
    for x in samples() {
        assert_eq!(single(x).is_finite(), x.is_finite(), "classifying {x}");
    }
}

#[test]
fn is_finite_at_the_exponent_boundary() {
    assert!(Single::from_bits(0x7f7f_ffff).is_finite());
    assert!(Single::from_bits(0xff7f_ffff).is_finite());
    assert!(!Single::from_bits(0x7f80_0000).is_finite());
    assert!(!Single::from_bits(0xff80_0000).is_finite());
    assert!(!Single::from_bits(0x7f80_0001).is_finite());
    assert!(!Single::from_bits(0xffff_ffff).is_finite());
}
