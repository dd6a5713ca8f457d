use pathtracer::scalar::{
    clear_sign, is_nan, is_positive, is_probability, less_than, HIDDEN_BIT, INFINITY, ONE,
    SIGN_BIT, ZERO,
};

fn landmarks() -> Vec<f64> {
    vec![
        0.0,
        -0.0,
        1.0,
        -1.0,
        0.5,
        2.0,
        0.001,
        0.999,
        1.001,
        1e-300,
        -1e-300,
        1e300,
        -1e300,
        f64::MIN_POSITIVE,
        -f64::MIN_POSITIVE,
        f64::from_bits(1),
        f64::from_bits(SIGN_BIT | 1),
        f64::from_bits(HIDDEN_BIT - 1),
        f64::MAX,
        f64::MIN,
        f64::EPSILON,
        f64::INFINITY,
        f64::NEG_INFINITY,
        f64::NAN,
        f64::from_bits(0x7FF0_0000_0000_0001),
        f64::from_bits(0xFFFF_FFFF_FFFF_FFFF),
        20000.25,
        234.0 / 255.0,
    ]
}

fn next_pattern(state: &mut u64) -> u64 {
    *state ^= *state << 13;
    *state ^= *state >> 7;
    *state ^= *state << 17;
    *state
}

#[test]
fn constants_are_the_patterns_they_name() {
    assert_eq!(ZERO, 0.0_f64.to_bits());
    assert_eq!(ONE, 1.0_f64.to_bits());
    assert_eq!(INFINITY, f64::INFINITY.to_bits());
    assert_eq!(SIGN_BIT, (-0.0_f64).to_bits());
    assert_eq!(HIDDEN_BIT, f64::MIN_POSITIVE.to_bits());
}

#[test]
fn less_than_on_chosen_numbers() {
    assert!(less_than(ZERO, ONE));
    assert!(!less_than(ONE, ZERO));
    assert!(!less_than(ONE, ONE));
    assert!(less_than((-1.0_f64).to_bits(), ZERO));
    assert!(less_than((-2.0_f64).to_bits(), (-1.0_f64).to_bits()));
    assert!(!less_than((-1.0_f64).to_bits(), (-2.0_f64).to_bits()));
    assert!(!less_than(SIGN_BIT, ZERO));
    assert!(!less_than(ZERO, SIGN_BIT));
    assert!(less_than(f64::MAX.to_bits(), INFINITY));
    assert!(!less_than(f64::NAN.to_bits(), ONE));
    assert!(!less_than(ONE, f64::NAN.to_bits()));
}

#[test]
fn less_than_agrees_with_the_hardware_on_landmarks() {
    let numbers = landmarks();
    for a in &numbers {
        for b in &numbers {
            assert_eq!(less_than(a.to_bits(), b.to_bits()), a < b, "{:?} < {:?}", a, b);
        }
    }
}

#[test]
fn less_than_agrees_with_the_hardware_on_many_patterns() {
    let mut state: u64 = 0x9E37_79B9_7F4A_7C15;
    for _ in 0..200_000 {
        let a = next_pattern(&mut state);
        let b = next_pattern(&mut state);
        assert_eq!(less_than(a, b), f64::from_bits(a) < f64::from_bits(b));
        // neighbours differ in the last place only
        let c = a.wrapping_add(1);
        assert_eq!(less_than(a, c), f64::from_bits(a) < f64::from_bits(c));
        assert_eq!(less_than(c, a), f64::from_bits(c) < f64::from_bits(a));
    }
}

#[test]
fn is_positive_agrees_with_the_hardware() {
    for a in landmarks() {
        assert_eq!(is_positive(a.to_bits()), a > 0.0, "{:?}", a);
    }
    let mut state: u64 = 17;
    for _ in 0..100_000 {
        let a = next_pattern(&mut state);
        assert_eq!(is_positive(a), f64::from_bits(a) > 0.0);
    }
}

#[test]
fn is_nan_agrees_with_the_hardware() {
    for a in landmarks() {
        assert_eq!(is_nan(a.to_bits()), a.is_nan(), "{:?}", a);
    }
    let mut state: u64 = 23;
    for _ in 0..100_000 {
        let a = next_pattern(&mut state) | INFINITY;
        assert_eq!(is_nan(a), f64::from_bits(a).is_nan());
    }
}

#[test]
fn clear_sign_is_the_absolute_value() {
    for a in landmarks() {
        if !a.is_nan() {
            assert_eq!(clear_sign(a.to_bits()), a.abs().to_bits(), "{:?}", a);
        }
    }
    assert_eq!(clear_sign(SIGN_BIT), ZERO);
    assert_eq!(clear_sign((-1.0_f64).to_bits()), ONE);
    assert_eq!(clear_sign(ONE), ONE);
}

#[test]
fn is_probability_agrees_with_the_hardware() {
    for a in landmarks() {
        assert_eq!(is_probability(a.to_bits()), 0.0 <= a && a <= 1.0, "{:?}", a);
    }
    assert!(is_probability(ZERO));
    assert!(is_probability(SIGN_BIT));
    assert!(is_probability(ONE));
    assert!(is_probability(0.01_f64.to_bits()));
    assert!(!is_probability(ONE + 1));
    assert!(!is_probability(SIGN_BIT + 1));
    assert!(!is_probability(f64::NAN.to_bits()));
    let mut state: u64 = 29;
    for _ in 0..100_000 {
        let a = next_pattern(&mut state);
        let x = f64::from_bits(a);
        assert_eq!(is_probability(a), 0.0 <= x && x <= 1.0);
    }
}
