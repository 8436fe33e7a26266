use rich_darts::components::display_legs::{leg_amount_accepted, missing_legs, start_score_accepted};
use rich_darts::components::display_matches::match_title_input;
use rich_darts::domain::{Leg, LegStatus};

fn leg_with(status: LegStatus) -> Leg {
    Leg { id: 1, leg_order: 1, start_score: 501, status: status.display(), last_score: None }
}

#[test]
fn missing_legs_ignores_cancelled() {
    let legs = vec![leg_with(LegStatus::Finished), leg_with(LegStatus::Cancelled), leg_with(LegStatus::Ongoing)];
    assert_eq!(missing_legs(5, &legs), 3);
    assert_eq!(missing_legs(2, &legs), 0);
    assert_eq!(missing_legs(1, &legs), 0);
    assert_eq!(missing_legs(3, &vec![]), 3);
}

#[test]
fn input_acceptance() {
    assert!(start_score_accepted(&"501".to_string()));
    assert!(start_score_accepted(&"0".to_string()));
    assert!(!start_score_accepted(&"abc".to_string()));
    assert!(leg_amount_accepted(&"5".to_string()));
    assert!(!leg_amount_accepted(&"0".to_string()));
    assert!(!leg_amount_accepted(&"".to_string()));
}

#[test]
fn match_titles_are_trimmed() {
    assert_eq!(match_title_input(&"  Final  ".to_string()), Some("Final".to_string()));
    assert_eq!(match_title_input(&"Club night".to_string()), Some("Club night".to_string()));
    assert_eq!(match_title_input(&"   ".to_string()), None);
    assert_eq!(match_title_input(&"".to_string()), None);
    assert_eq!(match_title_input(&"\u{3000}x\t".to_string()), Some("x".to_string()));
    for text in [" a b ", "\n\nq", "z\u{2003}"] {
        assert_eq!(match_title_input(&text.to_string()), Some(text.trim().to_string()));
    }
}
