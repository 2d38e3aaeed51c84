use raytracer::order::{key, less, pattern, INFINITY, ONE, ZERO};
use raytracer::utilities::clamp;

#[test]
fn keys_of_landmark_doubles() {
    assert_eq!(key(0.0f64.to_bits()), 0);
    assert_eq!(key((-0.0f64).to_bits()), -1);
    assert_eq!(key(1.0f64.to_bits()), 0x3FF0_0000_0000_0000);
    assert_eq!(key((-1.0f64).to_bits()), -0x3FF0_0000_0000_0000 - 1);
    assert_eq!(key(f64::INFINITY.to_bits()), 0x7FF0_0000_0000_0000);
    assert_eq!(key(f64::NEG_INFINITY.to_bits()), -0x7FF0_0000_0000_0000 - 1);
    assert_eq!(key(u64::MAX), i64::MIN);
    assert_eq!(key(0x7FFF_FFFF_FFFF_FFFF), i64::MAX);
}

#[test]
fn keys_keep_the_order_of_doubles() {
    let values = [
        f64::NEG_INFINITY,
        f64::MIN,
        -3.5,
        -1.0,
        -0.001,
        -f64::MIN_POSITIVE,
        -0.0,
        0.0,
        f64::MIN_POSITIVE,
        0.001,
        0.5,
        1.0,
        1.5,
        100.0,
        f64::MAX,
        f64::INFINITY,
    ];
    for pair in values.windows(2) {
        assert!(key(pair[0].to_bits()) < key(pair[1].to_bits()));
    }
}

#[test]
fn keys_of_nan_lie_beyond_the_infinities() {
    let nan = f64::NAN.to_bits() & 0x7FFF_FFFF_FFFF_FFFF;
    assert!(key(nan) > key(f64::INFINITY.to_bits()));
    assert!(key(nan | 0x8000_0000_0000_0000) < key(f64::NEG_INFINITY.to_bits()));
}

#[test]
fn pattern_undoes_key() {
    for t in [0.0, -0.0, 0.5, -0.5, 1e300, -1e300, 1e-300, f64::INFINITY, f64::NEG_INFINITY] {
        let bits = f64::to_bits(t);
        assert_eq!(pattern(key(bits)), bits);
    }
    for bits in [0u64, 1, u64::MAX, 1 << 63, (1 << 63) - 1, (1 << 63) + 1, f64::NAN.to_bits()] {
        assert_eq!(pattern(key(bits)), bits);
    }
    for k in [0i64, 1, -1, i64::MIN, i64::MAX, 42, -42] {
        assert_eq!(key(pattern(k)), k);
    }
}

#[test]
fn clamp_of_keys_is_the_clamp_of_doubles() {
    let clamp_double = |x: f64, min: f64, max: f64| {
        f64::from_bits(pattern(clamp(key(x.to_bits()), key(min.to_bits()), key(max.to_bits()))))
    };
    assert_eq!(clamp_double(0.5, 0.0, 0.999), 0.5);
    assert_eq!(clamp_double(1.7, 0.0, 0.999), 0.999);
    assert_eq!(clamp_double(-0.2, 0.0, 0.999), 0.0);
    assert_eq!(clamp_double(f64::INFINITY, 0.0, 0.999), 0.999);
    assert_eq!(clamp_double(0.999, 0.0, 0.999), 0.999);
}

#[test]
fn landmark_keys_are_the_keys_of_their_doubles() {
    assert_eq!(ZERO, key(0.0f64.to_bits()));
    assert_eq!(ONE, key(1.0f64.to_bits()));
    assert_eq!(INFINITY, key(f64::INFINITY.to_bits()));
    assert_eq!(-INFINITY - 1, key(f64::NEG_INFINITY.to_bits()));
}

#[test]
fn less_compares_as_doubles_do() {
    let values = [
        f64::NEG_INFINITY,
        f64::MIN,
        -1.5,
        -1.0,
        -5e-324,
        -0.0,
        0.0,
        5e-324,
        0.001,
        1.0,
        1.0000000000000002,
        f64::MAX,
        f64::INFINITY,
        f64::NAN,
        -f64::NAN,
    ];
    for a in values {
        for b in values {
            assert_eq!(less(key(a.to_bits()), key(b.to_bits())), a < b);
        }
    }
}
