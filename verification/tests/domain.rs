use rich_darts::components::domain::ScoreMessageMode as OldScoreMessageMode;
use rich_darts::decimal::{i32_to_decimal, i32_to_signed_decimal, parse_u16, u32_to_decimal};
use rich_darts::domain::{
    init_score, is_known_leg_status, parse_leg_status, parse_score_message, ErrorMessageMode, LegStatus, Score,
    ScoreMessageMode, SetStatus,
};

#[test]
fn leg_status_texts_round_trip() {
    for s in [LegStatus::Ongoing, LegStatus::Finished, LegStatus::Cancelled, LegStatus::Future] {
        assert_eq!(parse_leg_status(s.display()), s);
        assert!(is_known_leg_status(&s.display()));
    }
    assert_eq!(LegStatus::Finished.display(), "Leg finished");
    assert_eq!(LegStatus::Future.display(), "Not started yet");
    assert!(!is_known_leg_status(&"ONGOING".to_string()));
}

#[test]
fn unknown_leg_status_is_recognised() {
    assert!(!is_known_leg_status(&"Paused".to_string()));
    assert!(!is_known_leg_status(&"".to_string()));
}

#[test]
fn leg_status_counts() {
    assert!(LegStatus::Ongoing.count_towards_leg_amount());
    assert!(LegStatus::Future.count_towards_leg_amount());
    assert!(LegStatus::Finished.count_towards_leg_amount());
    assert!(!LegStatus::Cancelled.count_towards_leg_amount());
}

#[test]
fn set_status_texts() {
    assert_eq!(SetStatus::Finished.value(), "Set finished");
    assert_eq!(SetStatus::Ongoing.value(), "Ongoing");
    assert_eq!(SetStatus::Cancelled.value(), "Set cancelled");
}

#[test]
fn score_message_texts_and_parse() {
    assert_eq!(ScoreMessageMode::NewShot.display(), "Enter Shot");
    assert_eq!(ScoreMessageMode::UndoLastShot { last_score: 60 }.display(), "Correct last Shot:  60");
    for m in [ScoreMessageMode::LegFinished, ScoreMessageMode::LegCancelled, ScoreMessageMode::SetFinished, ScoreMessageMode::NewShot] {
        assert_eq!(parse_score_message(m.display()), m);
    }
    assert_eq!(parse_score_message(LegStatus::Ongoing.display()), ScoreMessageMode::NewShot);
    assert_eq!(parse_score_message(LegStatus::Finished.display()), ScoreMessageMode::LegFinished);
    assert_eq!(parse_score_message(LegStatus::Cancelled.display()), ScoreMessageMode::LegCancelled);
    assert_eq!(
        parse_score_message(ScoreMessageMode::UndoLastShot { last_score: 3 }.display()),
        ScoreMessageMode::NewShot
    );
}

#[test]
fn score_message_permissions() {
    assert!(ScoreMessageMode::NewShot.allow_score());
    assert!(ScoreMessageMode::UndoLastShot { last_score: 1 }.allow_score());
    assert!(!ScoreMessageMode::LegFinished.allow_score());
    assert!(ScoreMessageMode::LegFinished.allow_new_leg());
    assert!(ScoreMessageMode::LegCancelled.allow_new_leg());
    assert!(!ScoreMessageMode::SetFinished.allow_new_leg());
    assert!(!ScoreMessageMode::NewShot.allow_new_leg());
}

#[test]
fn error_message_texts() {
    assert_eq!(ErrorMessageMode::NoError.value(), None);
    assert_eq!(ErrorMessageMode::NotANumber.value(), Some("Not a number".to_string()));
    assert_eq!(ErrorMessageMode::NotADartsNumber.value(), Some("Invalid Darts number".to_string()));
    assert_eq!(ErrorMessageMode::LegAlreadyFinished.value(), Some("Leg already finished".to_string()));
    assert_eq!(ErrorMessageMode::TechnicalError.value(), Some("Technical error".to_string()));
    assert_eq!(ErrorMessageMode::CreateNewLeg.value(), Some("Create a new  leg".to_string()));
    assert!(ErrorMessageMode::NoError.allow_score());
    assert!(ErrorMessageMode::NotANumber.allow_score());
    assert!(!ErrorMessageMode::CreateNewLeg.allow_score());
    assert!(!ErrorMessageMode::TechnicalError.allow_score());
}

#[test]
fn old_score_message_texts() {
    assert_eq!(OldScoreMessageMode::NewScore.value(), "Enter the new score");
    assert_eq!(
        OldScoreMessageMode::ResetLastScore { last_score: 7 }.value(),
        "Correct last entered Score:  7"
    );
    assert_eq!(OldScoreMessageMode::GameFinished.value(), "Game finished");
}

#[test]
fn init_score_values() {
    assert_eq!(init_score(), Score { leg_id: 0, remaining: 501, thrown: 0, throw_order: 0, double_attempt: None });
}

#[test]
fn decimal_texts() {
    assert_eq!(u32_to_decimal(0), "0");
    assert_eq!(u32_to_decimal(7), "7");
    assert_eq!(u32_to_decimal(180), "180");
    assert_eq!(u32_to_decimal(4294967295), "4294967295");
    assert_eq!(i32_to_signed_decimal(0), "+0");
    assert_eq!(i32_to_signed_decimal(-2147483648), "-2147483648");
    assert_eq!(i32_to_decimal(-15), "-15");
    assert_eq!(i32_to_decimal(42), "42");
}

#[test]
fn parse_u16_matches_std() {
    for text in ["0", "180", "+5", "65535", "65536", "", " ", "+", "-1", "12a", " 12", "007", "99999999999"] {
        assert_eq!(parse_u16(&text.to_string()), text.parse::<u16>().ok(), "input {:?}", text);
    }
    for n in 0u16..=2000 {
        assert_eq!(parse_u16(&n.to_string()), Some(n));
    }
}
