use rich_darts::components::calculation::statistic_calculation::{
    calculate_compare_value, enhance_average_value, enhance_set_average, first_three_average, leg_live_average,
    parse_stat_absolut_value, CompareValue, StatAbsolutValue,
};
use rich_darts::domain::{Metric, Score};

fn helper(thrown: u16, throw_order: u16) -> Score {
    Score { leg_id: 1, remaining: 501, thrown, throw_order, double_attempt: None }
}

#[test]
fn live_average_ignores_only_init() {
    let input = vec![helper(0, 0)];
    let res = leg_live_average(input);
    assert_eq!(res, StatAbsolutValue::NoValue);
}

#[test]
fn live_average_ignores_init() {
    let input = vec![helper(0, 0), helper(20, 1), helper(30, 2)];
    let res = leg_live_average(input);
    assert_eq!(res, StatAbsolutValue::HasValue(25));
}

#[test]
fn first_three_average_ignores_only_init() {
    let input = vec![helper(0, 0)];
    let res = first_three_average(input);
    assert_eq!(res, StatAbsolutValue::NoValue);
}

#[test]
fn first_three_average_ignores_init() {
    let input = vec![helper(0, 0), helper(20, 1), helper(30, 2)];
    let res = first_three_average(input);
    assert_eq!(res, StatAbsolutValue::HasValue(25));
}

#[test]
fn first_three_average_ignores_following_inputs() {
    let input = vec![helper(0, 0), helper(20, 1), helper(30, 2), helper(40, 2), helper(10000, 2)];
    let res = first_three_average(input);
    assert_eq!(res, StatAbsolutValue::HasValue(30));
}

fn metric(sum: u16, score_amount: u16) -> Metric {
    Metric {
        sum,
        score_amount,
        throws: score_amount * 3,
        amount_of_legs: 1,
        first_nine_per_leg_sum: 100,
        hundred_plus_amount: 0,
        double_attempts: 0,
    }
}

#[test]
fn set_average_adds_leg_scores() {
    let input = vec![helper(0, 0), helper(20, 1), helper(40, 2)];
    assert_eq!(enhance_set_average(input, &metric(90, 3)), StatAbsolutValue::HasValue(30));
    assert_eq!(enhance_set_average(vec![], &metric(0, 0)), StatAbsolutValue::NoValue);
}

#[test]
fn set_average_without_other_legs_is_leg_average() {
    let input = vec![helper(0, 0), helper(21, 1), helper(40, 2)];
    assert_eq!(enhance_set_average(input.clone(), &metric(0, 0)), leg_live_average(input));
}

#[test]
fn enhance_average_value_cases() {
    assert_eq!(enhance_average_value(None, 30, 0), StatAbsolutValue::NoValue);
    assert_eq!(enhance_average_value(None, 30, 2), StatAbsolutValue::HasValue(15));
    assert_eq!(enhance_average_value(None, 1, 2), StatAbsolutValue::NoValue);
    assert_eq!(enhance_average_value(Some(&StatAbsolutValue::HasValue(9)), 30, 2), StatAbsolutValue::HasValue(13));
    assert_eq!(enhance_average_value(Some(&StatAbsolutValue::NoValue), 30, 2), StatAbsolutValue::HasValue(10));
}

#[test]
fn compare_values() {
    let a = StatAbsolutValue::HasValue(50);
    let b = StatAbsolutValue::HasValue(45);
    assert_eq!(calculate_compare_value(&a, &b), CompareValue::HasValue(5, None));
    assert_eq!(calculate_compare_value(&b, &a), CompareValue::HasValue(-5, None));
    assert_eq!(calculate_compare_value(&a, &StatAbsolutValue::NoValue), CompareValue::NoValue);
    assert_eq!(calculate_compare_value(&a, &b).display(), "+5 compared to set average");
    assert_eq!(calculate_compare_value(&b, &a).display(), "-5 compared to set average");
    assert_eq!(calculate_compare_value(&a, &a).display(), "+0 compared to set average");
    assert_eq!(CompareValue::NoValue.display(), "-");
    assert_eq!(CompareValue::HasValue(3, Some(1)).display(), "-");
}

#[test]
fn stat_value_display_and_parse() {
    assert_eq!(parse_stat_absolut_value(0), StatAbsolutValue::NoValue);
    assert_eq!(parse_stat_absolut_value(17), StatAbsolutValue::HasValue(17));
    assert_eq!(parse_stat_absolut_value(17).value_or_zero(), 17);
    assert_eq!(parse_stat_absolut_value(0).value_or_zero(), 0);
    assert_eq!(StatAbsolutValue::HasValue(60).display(), "60");
    assert_eq!(StatAbsolutValue::HasValue(0).display(), "0");
    assert_eq!(StatAbsolutValue::NoValue.display(), "-");
}

#[test]
fn first_three_equals_live_average_on_short_legs() {
    let input = vec![helper(0, 0), helper(26, 1), helper(41, 2), helper(100, 3)];
    assert_eq!(first_three_average(input.clone()), leg_live_average(input));
}
