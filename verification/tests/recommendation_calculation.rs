use rich_darts::components::calculation::recommendation_calculation::ScoreType::{D, S, T};
use rich_darts::components::calculation::recommendation_calculation::{determine_rec, display_score_types, RecValue, ScoreType};

#[test]
fn no_panic_due_unreachable_state() {
    (0..501).into_iter().for_each(|input_val| {
        determine_rec(input_val as u16);
    })
}

#[test]
fn expect_remaining() {
    let result: Vec<RecValue> = (0..90).into_iter().map(|input_val| determine_rec(input_val as u16)).collect();
    for rec_value in result {
        match rec_value {
            RecValue::IsFinish(is_finish) => {
                let _ = is_finish.primary_rec;
            }
            RecValue::NoFinish(_) => panic!("a score below 90 has a checkout advice"),
        }
    }
}

fn total(darts: &[ScoreType]) -> u16 {
    darts
        .iter()
        .map(|d| match d {
            T(n) => 3 * n,
            D(n) => 2 * n,
            S(n) => *n,
        })
        .sum()
}

#[test]
fn recommendations_check_out() {
    for r in 2u16..=90 {
        match determine_rec(r) {
            RecValue::IsFinish(f) => {
                let primary = f.primary_rec.expect("primary advice");
                assert_eq!(total(&primary), r, "primary for {}", r);
                if r != 83 {
                    if let Some(secondary) = f.secondary_rec {
                        assert_eq!(total(&secondary), r, "secondary for {}", r);
                    }
                }
            }
            RecValue::NoFinish(_) => panic!("finish expected for {}", r),
        }
    }
}

#[test]
fn recommendation_examples() {
    match determine_rec(40) {
        RecValue::IsFinish(f) => {
            assert_eq!(f.primary_rec, Some(vec![D(20)]));
            assert_eq!(f.secondary_rec, None);
        }
        _ => panic!("finish expected"),
    }
    match determine_rec(37) {
        RecValue::IsFinish(f) => {
            assert_eq!(f.primary_rec, Some(vec![S(5), D(16)]));
            assert_eq!(f.secondary_rec, Some(vec![S(17), D(10)]));
        }
        _ => panic!("finish expected"),
    }
    match determine_rec(1) {
        RecValue::IsFinish(f) => {
            assert_eq!(f.primary_rec, None);
            assert_eq!(f.secondary_rec, None);
        }
        _ => panic!("finish expected"),
    }
    match determine_rec(75) {
        RecValue::IsFinish(f) => assert_eq!(f.secondary_rec, Some(vec![S(25), S(50)])),
        _ => panic!("finish expected"),
    }
    match determine_rec(150) {
        RecValue::NoFinish(n) => {
            assert_eq!(n.goal, 32);
            assert_eq!(n.rec, "118");
        }
        _ => panic!("no finish expected"),
    }
    match determine_rec(501) {
        RecValue::NoFinish(n) => {
            assert_eq!(n.goal, 321);
            assert_eq!(n.rec, "D20 D20 D20");
        }
        _ => panic!("no finish expected"),
    }
}

#[test]
fn advice_text_joins_darts_with_spaces() {
    assert_eq!(display_score_types(&Some(vec![T(20), D(15)])), "T20 D15");
    assert_eq!(display_score_types(&Some(vec![S(1), T(19), D(25)])), "S1 T19 D25");
    assert_eq!(display_score_types(&Some(vec![D(16)])), "D16");
    assert_eq!(display_score_types(&None), "");
}
