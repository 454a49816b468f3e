use windowscodexmonitor::double::Double;

fn left_of_hundred(used: f64) -> u8 {
    (100.0 - used).round().clamp(0.0, 100.0) as u8
}

fn check(used: f64) {
    assert_eq!(
        Double { bits: used.to_bits() }.taken_from_hundred(),
        left_of_hundred(used),
        "of {used:e}"
    );
}

#[test]
fn takes_from_a_hundred_like_the_machine() {
    for step in -2000..14000 {
        check(f64::from(step) * 0.01);
        check(f64::from(step) / 128.0);
    }
}

#[test]
fn takes_halves_and_their_neighbours_from_a_hundred_like_the_machine() {
    for half in 0..=260 {
        let used = f64::from(half) * 0.5;
        for distance in 0..40u64 {
            check(f64::from_bits(used.to_bits() + distance));
            check(f64::from_bits(used.to_bits().saturating_sub(distance)));
            check(used + f64::from_bits(0x3d00_0000_0000_0000 + (distance << 51)));
            check(used - f64::from_bits(0x3d00_0000_0000_0000 + (distance << 51)));
        }
    }
}

#[test]
fn takes_extremes_from_a_hundred_like_the_machine() {
    for used in [
        0.0,
        -0.0,
        f64::MIN_POSITIVE,
        -f64::MIN_POSITIVE,
        f64::from_bits(1),
        f64::MAX,
        f64::MIN,
        1e-17,
        0.5000000000000001,
        99.49999999999999,
        99.5,
        100.5,
        127.99999999999999,
        128.0,
    ] {
        check(used);
    }
    let mut bits: u64 = 0x1234_5678_9abc_def0;
    for _ in 0..100_000 {
        bits ^= bits << 13;
        bits ^= bits >> 7;
        bits ^= bits << 17;
        let used = f64::from_bits(bits);
        if used.is_finite() {
            check(used);
        }
        check(f64::from_bits((bits & 0x800f_ffff_ffff_ffff) | ((960 + bits % 80) << 52)));
    }
}

#[test]
fn rounding_of_the_difference_counts() {
    // 100 - 0.5000000000000001 is nearest to 99.5, which rounds up.
    assert_eq!(Double { bits: 0.5000000000000001f64.to_bits() }.taken_from_hundred(), 100);
    assert_eq!(Double { bits: 0.5000000000001f64.to_bits() }.taken_from_hundred(), 99);
    assert_eq!(Double { bits: 64.6f64.to_bits() }.taken_from_hundred(), 35);
}

#[test]
fn tells_finite_numbers() {
    assert!(Double { bits: 1.5f64.to_bits() }.is_finite());
    assert!(Double { bits: f64::MAX.to_bits() }.is_finite());
    assert!(!Double { bits: f64::INFINITY.to_bits() }.is_finite());
    assert!(!Double { bits: f64::NAN.to_bits() }.is_finite());
}

#[test]
fn compares_with_integers_like_the_machine() {
    let mut numbers = vec![
        0.0,
        -0.0,
        f64::from_bits(1),
        -f64::from_bits(1),
        0.999_999_999_999_999_9,
        1.0,
        1.000_000_000_000_000_2,
        4294967295.0,
        4294967295.5,
        4294967296.0,
        f64::MAX,
        f64::MIN,
        f64::INFINITY,
        f64::NEG_INFINITY,
        f64::NAN,
        -f64::NAN,
    ];
    for step in -400..1600 {
        numbers.push(f64::from(step) * 0.25);
    }
    for number in numbers {
        for n in [0u32, 1, 2, 16, 241, 256, 370, u32::MAX] {
            let double = Double { bits: number.to_bits() };
            assert_eq!(double.at_least(n), number >= f64::from(n), "{number} >= {n}");
            assert_eq!(double.at_most(n), number <= f64::from(n), "{number} <= {n}");
        }
    }
}
