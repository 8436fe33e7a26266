use rich_darts::components::calculation::statistic_calculation::{CompareValue, StatAbsolutValue};
use rich_darts::components::score_statistic::{compute_score_statistics, statistics_computable_for};
use rich_darts::domain::{Leg, LegStatus, Metric, Score};

fn score(thrown: u16, throw_order: u16, double_attempt: Option<u16>) -> Score {
    Score { leg_id: 1, remaining: 501, thrown, throw_order, double_attempt }
}

fn leg(id: u16, status: LegStatus) -> Leg {
    Leg { id, leg_order: id, start_score: 501, status: status.display(), last_score: None }
}

#[test]
fn statistics_of_an_open_leg() {
    let scores = vec![score(0, 0, None), score(100, 1, None), score(60, 2, Some(1)), score(140, 3, Some(2))];
    let legs = vec![leg(1, LegStatus::Finished), leg(2, LegStatus::Ongoing)];
    let current = leg(2, LegStatus::Ongoing);
    let metric = Metric {
        sum: 300,
        score_amount: 6,
        throws: 18,
        amount_of_legs: 1,
        first_nine_per_leg_sum: 100,
        hundred_plus_amount: 1,
        double_attempts: 3,
    };
    assert!(statistics_computable_for(&scores, &legs, &current, Some(metric)));
    let stats = compute_score_statistics(&scores, &legs, &current, Some(metric));
    assert_eq!(stats.leg_average, StatAbsolutValue::HasValue(100));
    assert_eq!(stats.set_average, StatAbsolutValue::HasValue(66));
    assert_eq!(stats.average_trend, CompareValue::HasValue(34, None));
    assert_eq!(stats.leg_throws, StatAbsolutValue::HasValue(9));
    assert_eq!(stats.set_throws, StatAbsolutValue::HasValue(18));
    assert_eq!(stats.throws_trend, CompareValue::HasValue(-9, None));
    assert_eq!(stats.leg_first_nine_average, StatAbsolutValue::HasValue(100));
    assert_eq!(stats.leg_hundred_plus, StatAbsolutValue::HasValue(2));
    assert_eq!(stats.set_hundred_plus, StatAbsolutValue::HasValue(1));
    assert_eq!(stats.double_successes, StatAbsolutValue::HasValue(1));
    assert_eq!(stats.double_attempts, StatAbsolutValue::HasValue(6));
}

#[test]
fn statistics_of_a_finished_leg_count_it_in() {
    let scores = vec![score(0, 0, None), score(101, 1, None)];
    let current = leg(2, LegStatus::Finished);
    let legs = vec![leg(2, LegStatus::Ongoing)];
    let metric = Metric {
        sum: 0,
        score_amount: 0,
        throws: 9,
        amount_of_legs: 1,
        first_nine_per_leg_sum: 100,
        hundred_plus_amount: 3,
        double_attempts: 0,
    };
    let stats = compute_score_statistics(&scores, &legs, &current, Some(metric));
    assert_eq!(stats.set_throws, StatAbsolutValue::HasValue(6));
    assert_eq!(stats.set_hundred_plus, StatAbsolutValue::HasValue(2));
    assert_eq!(stats.double_successes, StatAbsolutValue::HasValue(1));
}

#[test]
fn statistics_without_metric() {
    let scores = vec![score(0, 0, None)];
    let current = leg(1, LegStatus::Ongoing);
    let stats = compute_score_statistics(&scores, &vec![], &current, None);
    assert_eq!(stats.leg_average, StatAbsolutValue::NoValue);
    assert_eq!(stats.set_average, StatAbsolutValue::NoValue);
    assert_eq!(stats.average_trend, CompareValue::NoValue);
    assert_eq!(stats.leg_throws, StatAbsolutValue::NoValue);
    assert_eq!(stats.double_attempts, StatAbsolutValue::NoValue);
}

#[test]
fn statistics_guard_refuses_overflow() {
    let scores = vec![score(0, 0, None), score(60000, 1, None), score(6000, 2, None)];
    assert!(!statistics_computable_for(&scores, &vec![], &leg(1, LegStatus::Ongoing), None));
}
