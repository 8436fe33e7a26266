use rich_darts::backend::api::dart_leg::{leg_init_score, next_leg_order, plan_new_legs};
use rich_darts::backend::api::dart_match::match_title;
use rich_darts::backend::api::dart_set::{compute_metric, metric_computable, next_set_order};
use rich_darts::backend::model::dart_leg::{self, DartLeg, NewDartLeg};
use rich_darts::backend::model::dart_match::{self, DartMatch, NewMatch};
use rich_darts::backend::model::dart_score::{self, DartScore};
use rich_darts::backend::model::dart_set::{self, DartSet, NewDartSet};
use rich_darts::domain::{LegStatus, Metric, Score};

fn db_score(leg_id: i32, throw_order: i32, thrown: i32, double_attempt: Option<i32>) -> DartScore {
    DartScore { id: 100 + throw_order, leg_id, throw_order, thrown, remaining: 501 - thrown, double_attempt, deleted: false }
}

#[test]
fn score_round_trip_through_database_row() {
    let s = Score { leg_id: 4, remaining: 321, thrown: 180, throw_order: 2, double_attempt: Some(1) };
    let row = dart_score::map_domain_to_undeleted_db(s);
    assert!(!row.deleted);
    assert_eq!(row.thrown, 180);
    let stored = DartScore {
        id: 9,
        leg_id: row.leg_id,
        throw_order: row.throw_order,
        thrown: row.thrown,
        remaining: row.remaining,
        double_attempt: row.double_attempt,
        deleted: row.deleted,
    };
    assert_eq!(dart_score::map_db_to_domain(stored), s);
}

#[test]
fn rows_map_to_domain() {
    let l = dart_leg::map_db_to_domain(DartLeg { id: 3, set_id: 1, leg_order: 2, start_score: 301, status: "Ongoing".to_string() });
    assert_eq!((l.id, l.leg_order, l.start_score, l.status.as_str(), l.last_score), (3, 2, 301, "Ongoing", None));
    let s = dart_set::map_db_to_domain(DartSet { id: 5, match_id: 1, set_order: 2, leg_amount: 3, status: "ONGOING".to_string() });
    assert_eq!((s.id, s.set_order, s.leg_amount, s.best_of, s.status.as_str()), (5, 2, 3, 3, "ONGOING"));
    let m = dart_match::map_db_to_domain(DartMatch { id: 70000, status: "ONGOING".to_string(), title: None });
    assert_eq!(m.id, 70000u32 as u16);
}

#[test]
fn new_rows() {
    let l = NewDartLeg::new(1, 2, 501, LegStatus::Cancelled);
    assert_eq!((l.set_id, l.leg_order, l.start_score, l.status.as_str()), (1, 2, 501, "Leg cancelled"));
    let s = NewDartSet::new(1, 2, 5);
    assert_eq!((s.match_id, s.set_order, s.leg_amount, s.status.as_str()), (1, 2, 5, "ONGOING"));
    assert_eq!(NewMatch::new().status, "ONGOING");
}

#[test]
fn next_orders() {
    assert_eq!(next_leg_order(None), 1);
    let l = DartLeg { id: 3, set_id: 1, leg_order: 4, start_score: 501, status: "Ongoing".to_string() };
    assert_eq!(next_leg_order(Some(&l)), 5);
    assert_eq!(next_set_order(None), 1);
    let s = DartSet { id: 3, match_id: 1, set_order: 2, leg_amount: 3, status: "ONGOING".to_string() };
    assert_eq!(next_set_order(Some(&s)), 3);
}

#[test]
fn planned_legs() {
    let legs = plan_new_legs(4, 301, 3, 3);
    assert_eq!(legs.len(), 3);
    assert_eq!(legs.iter().map(|l| l.leg_order).collect::<Vec<_>>(), vec![3, 4, 5]);
    assert_eq!(legs[0].status, LegStatus::Ongoing.display());
    assert_eq!(legs[1].status, LegStatus::Future.display());
    assert!(legs.iter().all(|l| l.set_id == 4 && l.start_score == 301));
    assert!(plan_new_legs(4, 301, 3, 0).is_empty());
    assert_eq!(leg_init_score(9, 301), Score { leg_id: 9, remaining: 301, thrown: 0, throw_order: 0, double_attempt: None });
}

#[test]
fn titles() {
    assert_eq!(match_title(Some("Final".to_string()), 4), "Final");
    assert_eq!(match_title(None, 12), "Match 12");
}

#[test]
fn metrics_of_other_legs() {
    let groups = vec![
        vec![db_score(1, 0, 0, None), db_score(1, 1, 100, Some(1)), db_score(1, 2, 60, None)],
        vec![db_score(2, 0, 0, None), db_score(2, 1, 140, Some(2))],
    ];
    assert!(metric_computable(&groups));
    assert_eq!(
        compute_metric(&groups),
        Metric {
            sum: 300,
            score_amount: 3,
            throws: 9,
            amount_of_legs: 2,
            first_nine_per_leg_sum: 100,
            hundred_plus_amount: 2,
            double_attempts: 3,
        }
    );
    let only_openings = vec![vec![db_score(1, 0, 0, None)]];
    assert_eq!(
        compute_metric(&only_openings),
        Metric {
            sum: 0,
            score_amount: 0,
            throws: 0,
            amount_of_legs: 0,
            first_nine_per_leg_sum: 0,
            hundred_plus_amount: 0,
            double_attempts: 0,
        }
    );
    assert!(!metric_computable(&vec![vec![]]));
}
