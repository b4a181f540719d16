use qr_payments_back::amount::{confirms_sum, scale_up, Amount, MAX_MANTISSA, MAX_SCALE};

fn amount(mantissa: i128, scale: u32) -> Amount {
    Amount::new(mantissa, scale).unwrap()
}

#[test]
fn new_accepts_the_whole_range() {
    assert!(Amount::new(MAX_MANTISSA, MAX_SCALE).is_some());
    assert!(Amount::new(-MAX_MANTISSA, 0).is_some());
    let a = amount(-12345, 3);
    assert_eq!(a.mantissa(), -12345);
    assert_eq!(a.scale(), 3);
}

#[test]
fn new_refuses_what_is_out_of_range() {
    assert!(Amount::new(MAX_MANTISSA + 1, 0).is_none());
    assert!(Amount::new(-MAX_MANTISSA - 1, 0).is_none());
    assert!(Amount::new(1, MAX_SCALE + 1).is_none());
    assert!(Amount::new(i128::MAX, 0).is_none());
}

#[test]
fn from_units_and_zero() {
    let a = Amount::from_units(-40);
    assert_eq!(a.mantissa(), -40);
    assert_eq!(a.scale(), 0);
    let z = Amount::zero();
    assert_eq!(z.mantissa(), 0);
    assert!(z.is_zero());
    assert!(!z.is_negative());
    assert!(Amount::from_units(i64::MIN).is_negative());
}

#[test]
fn zero_is_zero_at_every_scale() {
    assert!(amount(0, 5).is_zero());
    assert!(amount(0, 28).is_zero());
    assert!(!amount(1, 28).is_zero());
    assert!(amount(0, 5).same_value(&Amount::zero()));
}

#[test]
fn neg_changes_the_sign_only() {
    let a = amount(-1550, 2);
    assert_eq!(a.neg().mantissa(), 1550);
    assert_eq!(a.neg().scale(), 2);
    assert_eq!(a.neg().neg().mantissa(), -1550);
    assert_eq!(amount(0, 3).neg().mantissa(), 0);
    assert_eq!(amount(MAX_MANTISSA, 0).neg().mantissa(), -MAX_MANTISSA);
}

#[test]
fn order_is_by_value_not_by_scale() {
    let one_and_a_half = amount(15, 1);
    let the_same = amount(1500, 3);
    let two = amount(2, 0);
    assert!(one_and_a_half.same_value(&the_same));
    assert!(!one_and_a_half.lt(&the_same));
    assert!(one_and_a_half.ge(&the_same));
    assert!(one_and_a_half.lt(&two));
    assert!(!two.lt(&one_and_a_half));
    assert!(two.ge(&one_and_a_half));
    assert!(!one_and_a_half.same_value(&two));
}

#[test]
fn order_with_negative_amounts() {
    let minus_half = amount(-5, 1);
    let minus_small = amount(-1, 2);
    assert!(minus_half.lt(&minus_small));
    assert!(minus_small.lt(&Amount::zero()));
    assert!(!Amount::zero().lt(&minus_small));
    assert!(minus_half.lt(&amount(1, 28)));
}

#[test]
fn order_when_aligning_overflows() {
    let huge = amount(MAX_MANTISSA, 0);
    let tiny = amount(1, 28);
    assert!(tiny.lt(&huge));
    assert!(huge.ge(&tiny));
    assert!(huge.neg().lt(&tiny));
}

#[test]
fn checked_add_of_whole_units() {
    let sum = Amount::from_units(100).checked_add(&Amount::from_units(-40)).unwrap();
    assert_eq!(sum.mantissa(), 60);
    assert_eq!(sum.scale(), 0);
}

#[test]
fn checked_add_aligns_scales() {
    let sum = amount(10000, 2).checked_add(&Amount::from_units(-40)).unwrap();
    assert!(sum.same_value(&Amount::from_units(60)));
    assert_eq!(sum.mantissa(), 6000);
    assert_eq!(sum.scale(), 2);
    let cents = amount(1005, 2).checked_add(&amount(5, 3)).unwrap();
    assert_eq!(cents.mantissa(), 10055);
    assert_eq!(cents.scale(), 3);
}

#[test]
fn checked_add_to_zero() {
    let sum = amount(125, 2).checked_add(&amount(-125, 2)).unwrap();
    assert!(sum.is_zero());
    let kept = amount(0, 2).checked_add(&Amount::from_units(5)).unwrap();
    assert!(kept.same_value(&Amount::from_units(5)));
}

#[test]
fn checked_add_refuses_overflow() {
    let max = amount(MAX_MANTISSA, 0);
    assert!(max.checked_add(&max).is_none());
    assert!(max.neg().checked_add(&max.neg()).is_none());
    assert!(max.checked_add(&Amount::from_units(1)).is_none());
}

#[test]
fn checked_add_refuses_a_rounded_sum() {
    let nearly = amount(MAX_MANTISSA, 1);
    let tenth = amount(1, 1);
    assert!(nearly.checked_add(&tenth).is_none());
    let huge = amount(MAX_MANTISSA, 0);
    let tiny = amount(1, 28);
    assert!(huge.checked_add(&tiny).is_none());
}

#[test]
fn checked_add_keeps_an_exact_sum_at_a_smaller_scale() {
    let a = amount(MAX_MANTISSA, 1);
    let sum = a.checked_add(&a).unwrap();
    assert_eq!(sum.scale(), 0);
    assert_eq!(sum.mantissa(), 15845632502852867518708790067);
}

#[test]
fn confirms_sum_on_given_values() {
    let a = amount(10000, 2);
    let b = Amount::from_units(-40);
    assert!(confirms_sum(&a, &b, 6000, 2));
    assert!(confirms_sum(&a, &b, 60, 0));
    assert!(confirms_sum(&a, &b, 60000, 3));
    assert!(confirms_sum(&a, &b, 60 * 10i128.pow(27), 27));
    assert!(!confirms_sum(&a, &b, 600, 2));
    assert!(!confirms_sum(&a, &b, 10000, 2));
    assert!(!confirms_sum(&a, &b, 6001, 2));
    assert!(!confirms_sum(&a, &b, -6000, 2));
    assert!(!confirms_sum(&a, &b, MAX_MANTISSA + 1, 0));
    assert!(!confirms_sum(&a, &b, 6000, 29));
}

#[test]
fn confirms_sum_at_every_order_of_the_scales() {
    let half = amount(5, 1);
    let cent = amount(1, 2);
    assert!(confirms_sum(&half, &cent, 51, 2));
    assert!(confirms_sum(&cent, &half, 51, 2));
    assert!(confirms_sum(&half, &cent, 510, 3));
    assert!(!confirms_sum(&half, &cent, 5, 1));
    assert!(!confirms_sum(&half, &cent, 1, 0));
    let two_halves = [amount(5, 1), amount(50, 2)];
    assert!(confirms_sum(&two_halves[0], &two_halves[1], 1, 0));
    assert!(confirms_sum(&two_halves[1], &two_halves[0], 1, 0));
    assert!(confirms_sum(&two_halves[0], &two_halves[1], 10, 1));
    assert!(confirms_sum(&half, &half.neg(), 0, 7));
    assert!(!confirms_sum(&half, &half, 0, 0));
}

#[test]
fn confirms_sum_where_the_scales_lie_far_apart() {
    let huge = amount(MAX_MANTISSA, 0);
    let tiny = amount(1, 28);
    assert!(!confirms_sum(&huge, &tiny, MAX_MANTISSA, 0));
    assert!(!confirms_sum(&tiny, &huge, MAX_MANTISSA, 0));
    let large = amount(10i128.pow(25), 0);
    let one = amount(10i128.pow(28), 28);
    assert!(confirms_sum(&large, &one, 10i128.pow(25) + 1, 0));
    assert!(confirms_sum(&one, &large, 10i128.pow(28) + 1000, 3));
    assert!(!confirms_sum(&large, &one, 10i128.pow(25), 0));
    assert!(!confirms_sum(&large, &one, 10i128.pow(25) + 2, 0));
}

#[test]
fn checked_add_gives_every_sum_that_a_decimal_holds_exactly() {
    let large = amount(10i128.pow(25), 0);
    let one = amount(10i128.pow(28), 28);
    let want = amount(10i128.pow(25) + 1, 0);
    assert!(large.checked_add(&one).unwrap().same_value(&want));
    assert!(one.checked_add(&large).unwrap().same_value(&want));
    let max = amount(MAX_MANTISSA, 0);
    let minus_one = amount(-10i128.pow(28), 28);
    let below = amount(MAX_MANTISSA - 1, 0);
    assert!(max.checked_add(&minus_one).unwrap().same_value(&below));
}

#[test]
fn scale_up_multiplies_by_powers_of_ten() {
    assert_eq!(scale_up(7, 0), Some(7));
    assert_eq!(scale_up(7, 3), Some(7000));
    assert_eq!(scale_up(-15, 2), Some(-1500));
    assert_eq!(scale_up(0, 28), Some(0));
    assert_eq!(scale_up(1, 38), Some(100000000000000000000000000000000000000));
    assert_eq!(scale_up(1, 39), None);
    assert_eq!(scale_up(-2, 38), None);
    assert_eq!(scale_up(MAX_MANTISSA, 10), None);
}

const SAMPLES: [i128; 17] = [
    0,
    1,
    -1,
    9,
    -40,
    100,
    4_294_967_295,
    -4_294_967_296,
    4_294_967_297,
    18_446_744_073_709_551_615,
    -18_446_744_073_709_551_616,
    18_446_744_073_709_551_617,
    39_614_081_257_132_168_796_771_975_167,
    -39_614_081_257_132_168_796_771_975_168,
    MAX_MANTISSA - 1,
    MAX_MANTISSA,
    -MAX_MANTISSA,
];

#[test]
fn sums_at_one_scale_are_plain() {
    for scale in [0u32, 1, 2, 9, 19, 27, 28] {
        for am in SAMPLES {
            for bm in SAMPLES {
                let sum = amount(am, scale).checked_add(&amount(bm, scale));
                if -MAX_MANTISSA <= am + bm && am + bm <= MAX_MANTISSA {
                    let sum = sum.unwrap();
                    assert_eq!(sum.mantissa(), am + bm, "{} + {} at scale {}", am, bm, scale);
                    assert_eq!(sum.scale(), scale, "{} + {} at scale {}", am, bm, scale);
                } else if let Some(sum) = sum {
                    assert!(confirms_sum(
                        &amount(am, scale),
                        &amount(bm, scale),
                        sum.mantissa(),
                        sum.scale()
                    ));
                }
            }
        }
    }
}

#[test]
fn sums_are_exact_or_refused() {
    let small: [i128; 9] = [0, 1, -1, 7, -40, 100, 12345, -99999, 4_294_967_295];
    for a_scale in [0u32, 1, 2, 5, 9] {
        for b_scale in [0u32, 1, 3, 9] {
            for am in small {
                for bm in small {
                    let top = a_scale.max(b_scale);
                    let wide_a = am * 10i128.pow(top - a_scale);
                    let wide_b = bm * 10i128.pow(top - b_scale);
                    let want = amount(wide_a + wide_b, top);
                    let sum = amount(am, a_scale).checked_add(&amount(bm, b_scale)).unwrap();
                    assert!(sum.same_value(&want), "{}e-{} + {}e-{}", am, a_scale, bm, b_scale);
                }
            }
        }
    }
}

#[test]
fn order_agrees_with_cross_multiplication() {
    let small: [i128; 9] = [0, 1, -1, 7, -40, 100, 12345, -99999, 4_294_967_295];
    for a_scale in [0u32, 1, 2, 5, 9] {
        for b_scale in [0u32, 1, 3, 9] {
            for am in small {
                for bm in small {
                    let left = am * 10i128.pow(b_scale);
                    let right = bm * 10i128.pow(a_scale);
                    let a = amount(am, a_scale);
                    let b = amount(bm, b_scale);
                    assert_eq!(a.lt(&b), left < right, "{}e-{} < {}e-{}", am, a_scale, bm, b_scale);
                    assert_eq!(a.same_value(&b), left == right);
                    assert_eq!(a.ge(&b), left >= right);
                }
            }
        }
    }
}
