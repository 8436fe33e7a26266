use rich_darts::components::calculation::common::is_finish;
use rich_darts::components::calculations::{calculate_remaining, check_possible_remaining, valid_thrown};
use rich_darts::domain::CurrentScore;

#[test]
fn invalid_throw_bigger_then_180() {
    assert!(!valid_thrown(181));
    assert!(!valid_thrown(340));
}

#[test]
fn invalid_throw_edge() {
    assert!(!valid_thrown(172));
    assert!(!valid_thrown(179));
}

#[test]
fn valid_throw_edge() {
    assert!(valid_thrown(171));
    assert!(valid_thrown(180));
    assert!(valid_thrown(170));
    assert!(valid_thrown(2));
}

#[test]
fn valid_throw_arbitrary() {
    assert!(valid_thrown(120));
    assert!(valid_thrown(100));
    assert!(valid_thrown(63));
}

#[test]
fn should_not_end_on_1() {
    let last = CurrentScore { remaining: 141, thrown: 180, throw_order: 0 };
    let thrown = 140;
    let result = calculate_remaining(last, thrown, 0);
    assert_eq!(result, CurrentScore { remaining: 141, throw_order: 0, thrown })
}

#[test]
fn should_not_end_on_negative() {
    let last = CurrentScore { remaining: 141, thrown: 180, throw_order: 0 };
    let thrown = 150;
    let result = calculate_remaining(last, thrown, 0);
    assert_eq!(result, CurrentScore { remaining: 141, throw_order: 0, thrown })
}

#[test]
fn should_end_on_0() {
    let thrown = 141;
    let last = CurrentScore { remaining: 141, thrown: 180, throw_order: 0 };
    let result = calculate_remaining(last, thrown, 0);
    assert_eq!(result, CurrentScore { remaining: 0, throw_order: 0, thrown })
}

#[test]
fn should_not_end_on_0_if_impossible() {
    assert!(!check_possible_remaining(0, 171));
    assert!(!check_possible_remaining(0, 163))
}

#[test]
fn impossible_visit_totals_are_refused() {
    for v in [163u16, 166, 169, 172, 173, 175, 176, 178, 179] {
        assert!(!valid_thrown(v), "{} should be refused", v);
    }
    for v in 0u16..=162 {
        assert!(valid_thrown(v), "{} should be accepted", v);
    }
}

#[test]
fn regular_visit_subtracts_and_keeps_order() {
    let last = CurrentScore { remaining: 501, thrown: 0, throw_order: 0 };
    let result = calculate_remaining(last, 60, 1);
    assert_eq!(result, CurrentScore { remaining: 441, thrown: 60, throw_order: 1 });
}

#[test]
fn bust_on_bogey_checkout_keeps_remaining() {
    let last = CurrentScore { remaining: 169, thrown: 20, throw_order: 3 };
    let result = calculate_remaining(last, 169, 4);
    assert_eq!(result, CurrentScore { remaining: 169, thrown: 169, throw_order: 4 });
}

#[test]
fn check_possible_remaining_cases() {
    assert!(!check_possible_remaining(1, 40));
    assert!(check_possible_remaining(0, 170 - 1 - 9));
    assert!(!check_possible_remaining(0, 170));
    assert!(check_possible_remaining(2, 180));
}

#[test]
fn law_checkout_only_on_finish_examples() {
    for v in 2u16..=200 {
        assert_eq!(check_possible_remaining(0, v), is_finish(v), "value {}", v);
    }
}
