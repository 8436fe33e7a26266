use rich_darts::components::enter_panel::{
    apply_entry_plan, cancels_current_leg, entry_possible_for, plan_score_entry, score_allowed, undo_last_score,
    EntryPlan, ScoreEntry,
};
use rich_darts::components::main_score_component::initial_score_message;
use rich_darts::domain::{ErrorMessageMode, GameSet, Leg, LegStatus, Score, ScoreMessageMode, SetStatus};

fn leg(leg_order: u16) -> Leg {
    Leg { id: 7, leg_order, start_score: 501, status: LegStatus::Ongoing.display(), last_score: None }
}

fn set(leg_amount: u16) -> GameSet {
    GameSet { id: 2, set_order: 1, status: "ONGOING".to_string(), best_of: leg_amount, leg_amount }
}

fn score(remaining: u16, thrown: u16, throw_order: u16) -> Score {
    Score { leg_id: 7, remaining, thrown, throw_order, double_attempt: None }
}

#[test]
fn entry_rejects_bad_input() {
    let scores = vec![score(501, 0, 0)];
    let plan = plan_score_entry(&scores, ScoreMessageMode::NewShot, &"abc".to_string(), &leg(1), &set(3));
    assert_eq!(plan, ScoreEntry::Rejected(ErrorMessageMode::NotANumber));
    let plan = plan_score_entry(&scores, ScoreMessageMode::NewShot, &"179".to_string(), &leg(1), &set(3));
    assert_eq!(plan, ScoreEntry::Rejected(ErrorMessageMode::NotADartsNumber));
    let plan = plan_score_entry(&scores, ScoreMessageMode::LegFinished, &"60".to_string(), &leg(1), &set(3));
    assert_eq!(plan, ScoreEntry::Rejected(ErrorMessageMode::TechnicalError));
}

#[test]
fn entry_appends_next_visit() {
    let mut scores = vec![score(501, 0, 0), score(441, 60, 1)];
    let plan = plan_score_entry(&scores, ScoreMessageMode::NewShot, &"100".to_string(), &leg(1), &set(3));
    let expected = EntryPlan {
        corrected_throw_order: None,
        new_score: score(341, 100, 2),
        leg_finished: false,
        set_finished: false,
        next_mode: ScoreMessageMode::NewShot,
    };
    assert_eq!(plan, ScoreEntry::Accepted(expected));
    apply_entry_plan(&mut scores, &expected);
    assert_eq!(scores, vec![score(501, 0, 0), score(441, 60, 1), score(341, 100, 2)]);
}

#[test]
fn entry_corrects_last_visit() {
    let mut scores = vec![score(501, 0, 0), score(441, 60, 1), score(401, 40, 2)];
    let plan = plan_score_entry(
        &scores,
        ScoreMessageMode::UndoLastShot { last_score: 40 },
        &"45".to_string(),
        &leg(1),
        &set(3),
    );
    match plan {
        ScoreEntry::Accepted(p) => {
            assert_eq!(p.corrected_throw_order, Some(2));
            assert_eq!(p.new_score, score(396, 45, 2));
            apply_entry_plan(&mut scores, &p);
            assert_eq!(scores, vec![score(501, 0, 0), score(441, 60, 1), score(396, 45, 2)]);
        }
        _ => panic!("accepted expected"),
    }
}

#[test]
fn correction_with_same_value_keeps_scores() {
    let scores = vec![score(501, 0, 0), score(441, 60, 1), score(401, 40, 2)];
    let plan = plan_score_entry(&scores, ScoreMessageMode::UndoLastShot { last_score: 40 }, &"40".to_string(), &leg(1), &set(3));
    match plan {
        ScoreEntry::Accepted(p) => {
            let mut after = scores.clone();
            apply_entry_plan(&mut after, &p);
            assert_eq!(after, scores);
        }
        _ => panic!("accepted expected"),
    }
}

#[test]
fn checkout_finishes_leg_and_set() {
    let scores = vec![score(501, 0, 0), score(40, 100, 1)];
    let plan = plan_score_entry(&scores, ScoreMessageMode::NewShot, &"40".to_string(), &leg(2), &set(3));
    match plan {
        ScoreEntry::Accepted(p) => {
            assert!(p.leg_finished);
            assert!(!p.set_finished);
            assert_eq!(p.next_mode, ScoreMessageMode::LegFinished);
        }
        _ => panic!("accepted expected"),
    }
    let plan = plan_score_entry(&scores, ScoreMessageMode::NewShot, &"40".to_string(), &leg(3), &set(3));
    match plan {
        ScoreEntry::Accepted(p) => {
            assert!(p.set_finished);
            assert_eq!(p.next_mode, ScoreMessageMode::SetFinished);
        }
        _ => panic!("accepted expected"),
    }
}

#[test]
fn bust_keeps_remaining() {
    let scores = vec![score(501, 0, 0), score(40, 100, 1)];
    let plan = plan_score_entry(&scores, ScoreMessageMode::NewShot, &"39".to_string(), &leg(1), &set(3));
    match plan {
        ScoreEntry::Accepted(p) => assert_eq!(p.new_score, score(40, 39, 2)),
        _ => panic!("accepted expected"),
    }
}

#[test]
fn undo_asks_for_correction() {
    let scores = vec![score(501, 0, 0), score(441, 60, 1)];
    assert_eq!(
        undo_last_score(&scores, ScoreMessageMode::NewShot),
        (ErrorMessageMode::NoError, ScoreMessageMode::UndoLastShot { last_score: 60 }, 60)
    );
    assert_eq!(
        undo_last_score(&vec![], ScoreMessageMode::LegFinished),
        (ErrorMessageMode::NoError, ScoreMessageMode::LegFinished, 0)
    );
}

#[test]
fn entry_guards() {
    assert!(!entry_possible_for(&vec![], ScoreMessageMode::NewShot));
    assert!(!entry_possible_for(&vec![score(501, 0, 0)], ScoreMessageMode::UndoLastShot { last_score: 0 }));
    assert!(entry_possible_for(&vec![score(501, 0, 0)], ScoreMessageMode::NewShot));
    assert!(!entry_possible_for(&vec![score(501, 0, 65535)], ScoreMessageMode::NewShot));
}

#[test]
fn new_leg_cancels_unfinished() {
    assert!(cancels_current_leg(&vec![score(501, 0, 0)]));
    assert!(!cancels_current_leg(&vec![score(501, 0, 0), score(0, 501, 1)]));
    assert!(!cancels_current_leg(&vec![]));
}

#[test]
fn scoring_permission() {
    assert!(score_allowed(ScoreMessageMode::NewShot, ErrorMessageMode::NotANumber));
    assert!(!score_allowed(ScoreMessageMode::NewShot, ErrorMessageMode::CreateNewLeg));
    assert!(!score_allowed(ScoreMessageMode::SetFinished, ErrorMessageMode::NoError));
}

#[test]
fn opening_message() {
    let finished_set = SetStatus::Finished.value();
    assert_eq!(initial_score_message(&finished_set, LegStatus::Ongoing.display()), ScoreMessageMode::SetFinished);
    let open_set = "ONGOING".to_string();
    assert_eq!(initial_score_message(&open_set, LegStatus::Finished.display()), ScoreMessageMode::LegFinished);
    assert_eq!(initial_score_message(&open_set, LegStatus::Ongoing.display()), ScoreMessageMode::NewShot);
}
