use dem_settings::binary32::{less_than, product, quotient, INFINITY, NAN, ONE};

fn expected(x: f32) -> u32 {
    if x.is_nan() {
        NAN
    } else {
        x.to_bits()
    }
}

fn next(state: &mut u64) -> u32 {
    *state = state.wrapping_mul(6364136223846793005).wrapping_add(1442695040888963407);
    (*state >> 32) as u32
}

const EDGES: [u32; 24] = [
    0x0000_0000,
    0x8000_0000,
    0x0000_0001,
    0x8000_0001,
    0x0000_0002,
    0x007F_FFFF,
    0x0080_0000,
    0x0080_0001,
    0x00FF_FFFF,
    0x0100_0000,
    0x3F80_0000,
    0xBF80_0000,
    0x3F7F_FFFF,
    0x3F80_0001,
    0x4000_0000,
    0x3F00_0000,
    0x7F7F_FFFF,
    0xFF7F_FFFF,
    0x7F80_0000,
    0xFF80_0000,
    0x7FC0_0000,
    0x7F80_0001,
    0x3DCC_CCCD,
    0x404C_CCCD,
];

#[test]
fn quotient_matches_hardware_on_edges() {
    for &a in EDGES.iter() {
        for &b in EDGES.iter() {
            let want = expected(f32::from_bits(a) / f32::from_bits(b));
            assert_eq!(quotient(a, b), want, "{:#x} / {:#x}", a, b);
        }
    }
}

#[test]
fn product_matches_hardware_on_edges() {
    for &a in EDGES.iter() {
        for &b in EDGES.iter() {
            let want = expected(f32::from_bits(a) * f32::from_bits(b));
            assert_eq!(product(a, b), want, "{:#x} * {:#x}", a, b);
        }
    }
}

#[test]
fn less_than_matches_hardware_on_edges() {
    for &a in EDGES.iter() {
        for &b in EDGES.iter() {
            let want = f32::from_bits(a) < f32::from_bits(b);
            assert_eq!(less_than(a, b), want, "{:#x} < {:#x}", a, b);
        }
    }
}

#[test]
fn quotient_matches_hardware_on_a_sample() {
    let mut state: u64 = 1;
    for _ in 0..200_000 {
        let a = next(&mut state);
        let b = next(&mut state);
        let want = expected(f32::from_bits(a) / f32::from_bits(b));
        assert_eq!(quotient(a, b), want, "{:#x} / {:#x}", a, b);
    }
}

#[test]
fn product_matches_hardware_on_a_sample() {
    let mut state: u64 = 2;
    for _ in 0..200_000 {
        let a = next(&mut state);
        let b = next(&mut state);
        let want = expected(f32::from_bits(a) * f32::from_bits(b));
        assert_eq!(product(a, b), want, "{:#x} * {:#x}", a, b);
    }
}

#[test]
fn quotient_matches_hardware_near_the_subnormal_range() {
    let mut state: u64 = 3;
    for _ in 0..200_000 {
        let a = next(&mut state) % 0x0200_0000;
        let b = 0x3F00_0000 + next(&mut state) % 0x0C00_0000;
        let want = expected(f32::from_bits(a) / f32::from_bits(b));
        assert_eq!(quotient(a, b), want, "{:#x} / {:#x}", a, b);
    }
}

#[test]
fn product_matches_hardware_near_the_subnormal_range() {
    let mut state: u64 = 4;
    for _ in 0..200_000 {
        let a = next(&mut state) % 0x0200_0000;
        let b = 0x3000_0000 + next(&mut state) % 0x1000_0000;
        let want = expected(f32::from_bits(a) * f32::from_bits(b));
        assert_eq!(product(a, b), want, "{:#x} * {:#x}", a, b);
    }
}

#[test]
fn product_matches_hardware_near_overflow() {
    let mut state: u64 = 5;
    for _ in 0..200_000 {
        let a = 0x7E00_0000 + next(&mut state) % 0x0180_0000;
        let b = 0x3F00_0000 + next(&mut state) % 0x0200_0000;
        let want = expected(f32::from_bits(a) * f32::from_bits(b));
        assert_eq!(product(a, b), want, "{:#x} * {:#x}", a, b);
    }
}

#[test]
fn less_than_matches_hardware_on_a_sample() {
    let mut state: u64 = 6;
    for _ in 0..200_000 {
        let a = next(&mut state);
        let b = next(&mut state);
        let want = f32::from_bits(a) < f32::from_bits(b);
        assert_eq!(less_than(a, b), want, "{:#x} < {:#x}", a, b);
    }
}

#[test]
fn one_third_rounds_to_nearest() {
    assert_eq!(quotient(0x3F80_0000, 0x4040_0000), 0x3EAA_AAAB);
    assert_eq!(quotient(0x4000_0000, 0x4040_0000), 0x3F2A_AAAB);
}

#[test]
fn overflow_gives_infinity() {
    assert_eq!(product(0x7F7F_FFFF, 0x4000_0000), INFINITY);
    assert_eq!(quotient(0x7F7F_FFFF, 0x3F00_0000), INFINITY);
}

#[test]
fn one_is_neutral() {
    assert_eq!(ONE, 1.0f32.to_bits());
    let mut state: u64 = 7;
    for _ in 0..100_000 {
        let x = next(&mut state);
        if f32::from_bits(x).is_nan() {
            assert_eq!(product(x, ONE), NAN);
            assert_eq!(quotient(x, ONE), NAN);
        } else {
            assert_eq!(product(x, ONE), x);
            assert_eq!(quotient(x, ONE), x);
        }
    }
}

#[test]
fn a_number_by_itself_is_one() {
    let mut state: u64 = 8;
    for _ in 0..100_000 {
        let x = next(&mut state);
        let number = f32::from_bits(x);
        if number.is_finite() && number != 0.0 {
            assert_eq!(quotient(x, x), ONE);
        }
    }
}

#[test]
fn signs_multiply() {
    let two = 2.0f32.to_bits();
    let minus_two = (-2.0f32).to_bits();
    assert_eq!(product(two, minus_two), (-4.0f32).to_bits());
    assert_eq!(product(minus_two, minus_two), 4.0f32.to_bits());
    assert_eq!(quotient(two, minus_two), (-1.0f32).to_bits());
    assert_eq!(quotient(minus_two, minus_two), ONE);
    assert_eq!(quotient(0, minus_two), 0x8000_0000);
    assert_eq!(quotient(minus_two, 0), 0xFF80_0000);
    assert_eq!(product(0x8000_0000, two), 0x8000_0000);
}

#[test]
fn what_has_no_value_is_not_a_number() {
    assert_eq!(quotient(0, 0), NAN);
    assert_eq!(quotient(0, 0x8000_0000), NAN);
    assert_eq!(quotient(INFINITY, 0xFF80_0000), NAN);
    assert_eq!(product(0, INFINITY), NAN);
    assert_eq!(product(0xFF80_0000, 0x8000_0000), NAN);
    assert_eq!(quotient(0x7F80_0001, ONE), NAN);
    assert_eq!(product(ONE, 0xFFFF_FFFF), NAN);
    assert!(!less_than(NAN, ONE));
    assert!(!less_than(ONE, NAN));
    assert!(!less_than(NAN, NAN));
}

#[test]
fn ties_go_to_the_even_pattern() {
    // Halving an odd pattern at the foot of the normal range, or among the
    // subnormal ones, ends half way between two patterns.
    let half = 0.5f32.to_bits();
    let two = 2.0f32.to_bits();
    assert_eq!(product(0x0080_0001, half), 0x0040_0000);
    assert_eq!(product(0x0080_0003, half), 0x0040_0002);
    assert_eq!(quotient(0x0000_0001, two), 0);
    assert_eq!(quotient(0x0000_0003, two), 0x0000_0002);
    assert_eq!(quotient(0x0000_0005, two), 0x0000_0002);
    for x in [0x0080_0001u32, 0x0080_0003, 0x0000_0001, 0x0000_0003, 0x0000_0005] {
        assert_eq!(product(x, half), (f32::from_bits(x) * 0.5).to_bits());
        assert_eq!(quotient(x, two), (f32::from_bits(x) / 2.0).to_bits());
    }
}

#[test]
fn dividing_by_a_quotient_undoes_it_within_tolerance() {
    let mut state: u64 = 9;
    let tolerance = 1.0 / 4_194_304.0;
    let mut tried = 0;
    while tried < 50_000 {
        let h = 0x3000_0000 + next(&mut state) % 0x2000_0000;
        let v = 0x3000_0000 + next(&mut state) % 0x2000_0000;
        let w = 0x3000_0000 + next(&mut state) % 0x2000_0000;
        let ratio = quotient(h, v);
        let q = quotient(w, ratio);
        let p = product(w, ratio);
        let before = f32::from_bits(h) as f64 / f32::from_bits(v) as f64;
        let undone = f32::from_bits(w) as f64 / f32::from_bits(q) as f64;
        let restored = f32::from_bits(p) as f64 / f32::from_bits(w) as f64;
        assert!((undone - before).abs() <= tolerance * before, "{:#x} {:#x} {:#x}", h, v, w);
        assert!((restored - before).abs() <= tolerance * before, "{:#x} {:#x} {:#x}", h, v, w);
        tried += 1;
    }
}

#[test]
fn less_than_orders_the_numbers() {
    let ascending = [
        0xFF80_0000u32,
        0xFF7F_FFFF,
        0xBF80_0000,
        0x8080_0000,
        0x8000_0001,
        0x0000_0000,
        0x0000_0001,
        0x0080_0000,
        0x3F80_0000,
        0x7F7F_FFFF,
        0x7F80_0000,
    ];
    for (i, a) in ascending.iter().enumerate() {
        for (j, b) in ascending.iter().enumerate() {
            assert_eq!(less_than(*a, *b), i < j, "{:#x} {:#x}", a, b);
        }
    }
    assert!(!less_than(0x8000_0000, 0));
    assert!(!less_than(0, 0x8000_0000));
}
