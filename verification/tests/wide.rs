use primitive_types::U256 as Reference;
use zml_staking::wide::{mul_div, mul_ratio, U256};

const EDGES: [u128; 20] = [
    0,
    1,
    2,
    3,
    5,
    100,
    1000,
    u64::MAX as u128,
    1 << 64,
    (1 << 64) + 1,
    (1 << 127) - 1,
    1 << 127,
    (1 << 127) + 1,
    u128::MAX - 1,
    u128::MAX,
    1_000_000_000_000_000_000_000_000,
    500_000_000_000_000_000_000_000,
    31_536_000,
    0xffff_ffff_0000_0000_ffff_ffff_0000_0001,
    0x0123_4567_89ab_cdef_fedc_ba98_7654_3210,
];

fn wide_reference(a: u128, b: u128, d: u128) -> Option<u128> {
    if d == 0 {
        return None;
    }
    let q = Reference::from(a) * Reference::from(b) / Reference::from(d);
    if q > Reference::from(u128::MAX) {
        None
    } else {
        Some(q.as_u128())
    }
}

#[test]
fn mul_div_small_values() {
    assert_eq!(mul_div(6, 7, 2), Some(21));
    assert_eq!(mul_div(7, 7, 2), Some(24));
    assert_eq!(mul_div(0, 7, 2), Some(0));
    assert_eq!(mul_div(1, 1, 1), Some(1));
    assert_eq!(mul_div(999, 5, 1000), Some(4));
}

#[test]
fn mul_div_by_zero_is_none() {
    assert_eq!(mul_div(1, 1, 0), None);
    assert_eq!(mul_div(0, 0, 0), None);
}

#[test]
fn mul_div_keeps_a_product_beyond_128_bits() {
    // 2^127 * 6 is 3 * 2^128: the product needs 130 bits, the quotient 128.
    assert_eq!(mul_div(1 << 127, 6, 4), Some(3 << 126));
    assert_eq!(mul_div(u128::MAX, u128::MAX, u128::MAX), Some(u128::MAX));
    assert_eq!(mul_div(u128::MAX, 2, 2), Some(u128::MAX));
    assert_eq!(
        mul_div(u128::MAX, 1_000_000, 1_000_001),
        Some(340282026638911824551550055881712329742)
    );
}

#[test]
fn mul_div_reports_a_quotient_beyond_128_bits() {
    assert_eq!(mul_div(u128::MAX, 2, 1), None);
    assert_eq!(mul_div(1 << 64, 1 << 64, 1), None);
    assert_eq!(mul_div((1 << 64) - 1, (1 << 64) + 1, 1), Some(u128::MAX));
    assert_eq!(mul_div(u128::MAX, u128::MAX, u128::MAX - 1), None);
}

#[test]
fn mul_div_agrees_with_256_bit_arithmetic_at_the_edges() {
    for &a in EDGES.iter() {
        for &b in EDGES.iter() {
            for &d in EDGES.iter() {
                assert_eq!(mul_div(a, b, d), wide_reference(a, b, d), "{} * {} / {}", a, b, d);
            }
        }
    }
}

#[test]
fn mul_div_agrees_with_256_bit_arithmetic_on_scattered_values() {
    let mut seed: u128 = 0x9e37_79b9_7f4a_7c15_f39c_c060_5ced_c835;
    let mut next = || {
        seed = seed.wrapping_mul(0x2360_ed05_1fc6_5da4_4385_df64_9fcc_f645).wrapping_add(1);
        let shift = (seed >> 120) as u32 % 128;
        (seed ^ (seed >> 64)) >> shift
    };
    for _ in 0..20_000 {
        let (a, b, d) = (next(), next(), next());
        assert_eq!(mul_div(a, b, d), wide_reference(a, b, d), "{} * {} / {}", a, b, d);
    }
}

#[test]
fn full_product_of_largest_words() {
    let p = U256::mul_u128(u128::MAX, u128::MAX);
    assert_eq!(p.hi, u128::MAX - 1);
    assert_eq!(p.lo, 1);
}

#[test]
fn full_product_agrees_with_256_bit_arithmetic() {
    for &a in EDGES.iter() {
        for &b in EDGES.iter() {
            let p = U256::mul_u128(a, b);
            let expected = Reference::from(a) * Reference::from(b);
            assert_eq!(Reference::from(p.hi) << 128 | Reference::from(p.lo), expected);
        }
    }
}

#[test]
fn from_u128_has_an_empty_upper_word() {
    let x = U256::from_u128(42);
    assert_eq!((x.hi, x.lo), (0, 42));
}

#[test]
fn checked_div_of_a_wide_dividend() {
    let x = U256 { hi: 1, lo: 0 };
    assert_eq!(x.checked_div_u128(2), Some(1 << 127));
    assert_eq!(x.checked_div_u128(1), None);
    assert_eq!(x.checked_div_u128(0), None);
    let y = U256 { hi: u128::MAX - 1, lo: 1 };
    assert_eq!(y.checked_div_u128(u128::MAX), Some(u128::MAX));
}

#[test]
fn mul_ratio_scales_down() {
    assert_eq!(mul_ratio(1000, 5, 1000), 5);
    assert_eq!(mul_ratio(1001, 5, 1000), 5);
    assert_eq!(mul_ratio(199, 5, 1000), 0);
    assert_eq!(mul_ratio(0, 5, 1000), 0);
    assert_eq!(mul_ratio(77, 0, 1), 0);
    assert_eq!(mul_ratio(77, 3, 3), 77);
    assert_eq!(mul_ratio(u128::MAX, u128::MAX, u128::MAX), u128::MAX);
    assert_eq!(mul_ratio(u128::MAX, u128::MAX - 1, u128::MAX), u128::MAX - 1);
    assert_eq!(mul_ratio(u128::MAX, 5, 1000), 1701411834604692317316873037158841057);
}

#[test]
fn mul_ratio_agrees_with_256_bit_arithmetic() {
    for &a in EDGES.iter() {
        for &n in EDGES.iter() {
            for &d in EDGES.iter() {
                if d > 0 && n <= d {
                    assert_eq!(Some(mul_ratio(a, n, d)), wide_reference(a, n, d));
                }
            }
        }
    }
}

#[test]
fn div_u128_of_a_dividend_with_an_upper_word() {
    assert_eq!(U256 { hi: 1, lo: 0 }.div_u128(2), 1 << 127);
    assert_eq!(U256 { hi: 0, lo: 17 }.div_u128(5), 3);
    assert_eq!(U256 { hi: u128::MAX - 1, lo: u128::MAX }.div_u128(u128::MAX), u128::MAX);
    assert_eq!(U256 { hi: 2, lo: 1 }.div_u128(3), 226854911280625642308916404954512140971);
}
