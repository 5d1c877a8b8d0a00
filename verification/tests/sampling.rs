use rand::rngs::StdRng;
use rand::Rng;
use rand::RngCore;
use rand::SeedableRng;
use raytracer::sampling::draw_unit;
use raytracer::sampling::inside_unit_ball;
use raytracer::sampling::unit_fraction;
use raytracer::scalar::Scalar;

fn s(x: f32) -> Scalar {
    Scalar::from_bits(x.to_bits())
}

#[test]
fn unit_fraction_of_chosen_words() {
    assert_eq!(unit_fraction(0).to_bits(), 0.0f32.to_bits());
    assert_eq!(unit_fraction(255).to_bits(), 0.0f32.to_bits());
    assert_eq!(unit_fraction(256).to_bits(), (1.0f32 / 16_777_216.0).to_bits());
    assert_eq!(unit_fraction(0x8000_0000).to_bits(), 0.5f32.to_bits());
    assert_eq!(unit_fraction(0x4000_0000).to_bits(), 0.25f32.to_bits());
    assert_eq!(unit_fraction(0xc000_0000).to_bits(), 0.75f32.to_bits());
    assert_eq!(unit_fraction(u32::MAX).to_bits(), (16_777_215.0f32 / 16_777_216.0).to_bits());
}

#[test]
fn unit_fraction_is_the_upper_24_bits_over_two_to_the_24() {
    let mut word: u32 = 0;
    loop {
        let expected = (word >> 8) as f32 / 16_777_216.0;
        assert_eq!(unit_fraction(word).to_bits(), expected.to_bits(), "{word:#x}");
        match word.checked_add(0x0001_2345) {
            Some(next) => word = next,
            None => break,
        }
    }
}

#[test]
fn unit_fraction_stays_below_one() {
    let top = f32::from_bits(unit_fraction(u32::MAX).to_bits());
    assert!(top < 1.0);
    assert!(unit_fraction(u32::MAX).lt(Scalar::one()));
    assert!(!unit_fraction(0).lt(Scalar::zero()));
}

#[test]
fn draw_unit_follows_the_float_sampling_of_the_generator() {
    let mut ours = StdRng::seed_from_u64(20);
    let mut theirs = ours.clone();
    for _ in 0..2000 {
        let expected: f32 = theirs.gen();
        assert_eq!(draw_unit(&mut ours).to_bits(), expected.to_bits());
    }
}

#[test]
fn draw_unit_takes_one_word_per_draw() {
    let mut ours = StdRng::seed_from_u64(3);
    let mut theirs = ours.clone();
    for _ in 0..100 {
        let word = theirs.next_u32();
        assert_eq!(draw_unit(&mut ours).to_bits(), unit_fraction(word).to_bits());
    }
    assert_eq!(ours, theirs);
}

#[test]
fn draws_lie_in_the_unit_interval() {
    let mut rng = StdRng::seed_from_u64(99);
    for _ in 0..2000 {
        let x = f32::from_bits(draw_unit(&mut rng).to_bits());
        assert!((0.0..1.0).contains(&x));
    }
}

#[test]
fn inside_unit_ball_is_strict() {
    assert!(inside_unit_ball(s(0.0)));
    assert!(inside_unit_ball(s(0.999_999_94)));
    assert!(!inside_unit_ball(s(1.0)));
    assert!(!inside_unit_ball(s(1.5)));
    assert!(!inside_unit_ball(s(f32::NAN)));
}
