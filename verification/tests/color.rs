use pathtracer::color::{is_near_one, Color, TOLERANCE};
use pathtracer::scalar::{ONE, ZERO};

fn near_one_by_hardware(c: f64) -> bool {
    (c - 1.0).abs() < 0.001
}

fn next_unit(state: &mut u64) -> f64 {
    *state ^= *state << 13;
    *state ^= *state >> 7;
    *state ^= *state << 17;
    (*state >> 11) as f64 / (1u64 << 53) as f64
}

#[test]
fn new_keeps_the_channels() {
    let c = Color::new(1, 2, 3);
    assert_eq!(c.r, 1);
    assert_eq!(c.g, 2);
    assert_eq!(c.b, 3);
    assert_eq!(c, Color { r: 1, g: 2, b: 3 });
}

#[test]
fn black_is_three_zeros() {
    let c = Color::black();
    assert_eq!(f64::from_bits(c.r), 0.0);
    assert_eq!(f64::from_bits(c.g), 0.0);
    assert_eq!(f64::from_bits(c.b), 0.0);
    assert_eq!(c, Color::new(ZERO, ZERO, ZERO));
}

#[test]
fn white_is_three_ones() {
    let c = Color::white();
    assert_eq!(f64::from_bits(c.r), 1.0);
    assert_eq!(f64::from_bits(c.g), 1.0);
    assert_eq!(f64::from_bits(c.b), 1.0);
    assert_eq!(c, Color::new(ONE, ONE, ONE));
}

#[test]
fn tolerance_is_a_thousandth() {
    assert_eq!(TOLERANCE, 0.001_f64.to_bits());
}

#[test]
fn near_one_at_the_edges_of_the_interval() {
    // 0.999 itself is just outside: its distance from one is a hair above
    // the binary64 nearest to 0.001.
    let low = 0.999_f64.to_bits();
    assert!(!is_near_one(low - 1));
    assert!(!is_near_one(low));
    assert!(is_near_one(low + 1));
    let high = 1.001_f64.to_bits();
    assert!(is_near_one(high - 1));
    assert!(is_near_one(high));
    assert!(!is_near_one(high + 1));
    assert!(is_near_one(ONE));
    assert!(is_near_one(ONE - 1));
    assert!(is_near_one(ONE + 1));
}

#[test]
fn near_one_rejects_what_is_far_or_no_number() {
    for c in [0.0, -0.0, -1.0, 0.5, 2.0, 0.99, 1.01, 1e300, -1e300, f64::INFINITY, f64::NEG_INFINITY, f64::NAN] {
        assert!(!is_near_one(c.to_bits()), "{:?}", c);
    }
    assert!(!is_near_one((-1.0_f64).to_bits()));
    assert!(!is_near_one(u64::MAX));
}

#[test]
fn near_one_agrees_with_the_hardware() {
    let mut state: u64 = 0x2545_F491_4F6C_DD1D;
    for _ in 0..200_000 {
        let wide = 0.99 + 0.02 * next_unit(&mut state);
        assert_eq!(is_near_one(wide.to_bits()), near_one_by_hardware(wide), "{:?}", wide);
        let below = 0.999 + 1e-12 * (next_unit(&mut state) - 0.5);
        assert_eq!(is_near_one(below.to_bits()), near_one_by_hardware(below), "{:?}", below);
        let above = 1.001 + 1e-12 * (next_unit(&mut state) - 0.5);
        assert_eq!(is_near_one(above.to_bits()), near_one_by_hardware(above), "{:?}", above);
        let any = f64::from_bits(state);
        assert_eq!(is_near_one(state), near_one_by_hardware(any), "{:?}", any);
    }
    let low = 0.999_f64.to_bits();
    let high = 1.001_f64.to_bits();
    for step in 0..2000_u64 {
        for pattern in [low - 1000 + step, high - 1000 + step] {
            let c = f64::from_bits(pattern);
            assert_eq!(is_near_one(pattern), near_one_by_hardware(c), "{:?}", c);
        }
    }
}

#[test]
fn white_is_the_light_and_black_is_not() {
    assert!(Color::white().is_light());
    assert!(!Color::black().is_light());
}

#[test]
fn every_channel_must_be_near_one() {
    let near = 0.9995_f64.to_bits();
    let far = 0.9_f64.to_bits();
    assert!(Color::new(near, near, near).is_light());
    assert!(!Color::new(far, near, near).is_light());
    assert!(!Color::new(near, far, near).is_light());
    assert!(!Color::new(near, near, far).is_light());
}

#[test]
fn a_mirror_of_albedo_0_999_is_not_the_light() {
    let c = 0.999_f64.to_bits();
    assert!(!Color::new(c, c, c).is_light());
}
