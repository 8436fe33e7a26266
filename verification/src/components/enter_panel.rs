use vstd::prelude::*;
use crate::components::calculations::{calculate_remaining, is_three_dart_total, spec_new_remaining, valid_thrown};
use crate::decimal::{decimal, parse_u16, spec_parse_u16, law_parse_decimal_round_trip};
use crate::domain::{CurrentScore, ErrorMessageMode, GameSet, Leg, Score, ScoreMessageMode};

verus! {

/// What entering a valid visit does: which stored visit it corrects (if any),
/// the new visit, and how the leg, the set and the message change.
#[derive(Clone, Copy, Debug, PartialEq, Eq, Structural)]
pub struct EntryPlan {
    pub corrected_throw_order: Option<u16>,
    pub new_score: Score,
    pub leg_finished: bool,
    pub set_finished: bool,
    pub next_mode: ScoreMessageMode,
}

/// The answer to an entered text: an error to show, or the plan to carry out.
#[derive(Clone, Copy, Debug, PartialEq, Eq, Structural)]
pub enum ScoreEntry {
    Rejected(ErrorMessageMode),
    Accepted(EntryPlan),
}

/// The plan for scoring `val` on top of `last`, as visit number `throw_order`.
pub open spec fn plan_from(
    last: Score,
    val: u16,
    throw_order: u16,
    corrected: Option<u16>,
    leg_id: u16,
    leg_order: u16,
    leg_amount: u16,
) -> EntryPlan {
    let remaining = spec_new_remaining(last.remaining as int, val as int) as u16;
    let leg_finished = remaining == 0;
    let set_finished = leg_finished && leg_order == leg_amount;
    EntryPlan {
        corrected_throw_order: corrected,
        new_score: Score { leg_id, remaining, thrown: val, throw_order, double_attempt: None },
        leg_finished,
        set_finished,
        next_mode: if set_finished {
            ScoreMessageMode::SetFinished
        } else if leg_finished {
            ScoreMessageMode::LegFinished
        } else {
            ScoreMessageMode::NewShot
        },
    }
}

/// The input is a number that a visit can score.
pub open spec fn entry_is_valid_throw(input: Seq<char>) -> bool {
    spec_parse_u16(input) matches Some(v) && is_three_dart_total(v as int)
}

/// What entering `input` does to a leg whose visits are `scores`: not a number,
/// not a darts score, not expected in this mode, or a new visit (a correction
/// replaces the last visit and keeps its order).
pub open spec fn spec_plan_score_entry(
    scores: Seq<Score>,
    mode: ScoreMessageMode,
    input: Seq<char>,
    leg_id: u16,
    leg_order: u16,
    leg_amount: u16,
) -> ScoreEntry {
    match spec_parse_u16(input) {
        None => ScoreEntry::Rejected(ErrorMessageMode::NotANumber),
        Some(val) => if !is_three_dart_total(val as int) {
            ScoreEntry::Rejected(ErrorMessageMode::NotADartsNumber)
        } else {
            match mode {
                ScoreMessageMode::UndoLastShot { .. } => {
                    let order = scores.last().throw_order;
                    ScoreEntry::Accepted(
                        plan_from(scores[scores.len() - 2], val, order, Some(order), leg_id, leg_order, leg_amount),
                    )
                },
                ScoreMessageMode::NewShot => {
                    let last = scores.last();
                    ScoreEntry::Accepted(
                        plan_from(last, val, (last.throw_order + 1) as u16, None, leg_id, leg_order, leg_amount),
                    )
                },
                _ => ScoreEntry::Rejected(ErrorMessageMode::TechnicalError),
            }
        },
    }
}

/// The visits a leg can be in for a valid visit to be entered: at least one (two
/// for a correction), and room for one more in the throw order.
pub open spec fn entry_possible(scores: Seq<Score>, mode: ScoreMessageMode) -> bool {
    &&& scores.len() >= 1
    &&& mode is UndoLastShot ==> scores.len() >= 2
    &&& mode is NewShot ==> scores.last().throw_order < u16::MAX
}

fn to_current(s: Score) -> (c: CurrentScore)
    ensures
        c == (CurrentScore { remaining: s.remaining, thrown: s.thrown, throw_order: s.throw_order }),
{
    CurrentScore { remaining: s.remaining, thrown: s.thrown, throw_order: s.throw_order }
}

fn make_plan(last: Score, val: u16, throw_order: u16, corrected: Option<u16>, leg: &Leg, set: &GameSet) -> (p: EntryPlan)
    ensures
        p == plan_from(last, val, throw_order, corrected, leg.id, leg.leg_order, set.leg_amount),
{
    let new_current = calculate_remaining(to_current(last), val, throw_order);
    let new_score = Score {
        leg_id: leg.id,
        remaining: new_current.remaining,
        thrown: new_current.thrown,
        throw_order: new_current.throw_order,
        double_attempt: None,
    };
    let leg_finished = new_score.remaining == 0;
    let set_finished = leg_finished && leg.leg_order == set.leg_amount;
    let next_mode = if set_finished {
        ScoreMessageMode::SetFinished
    } else if leg_finished {
        ScoreMessageMode::LegFinished
    } else {
        ScoreMessageMode::NewShot
    };
    EntryPlan { corrected_throw_order: corrected, new_score, leg_finished, set_finished, next_mode }
}

/// Decides what the text entered in the score field does.
pub fn plan_score_entry(
    scores: &Vec<Score>,
    score_message_mode: ScoreMessageMode,
    input: &String,
    leg: &Leg,
    current_set: &GameSet,
) -> (res: ScoreEntry)
    requires
        entry_is_valid_throw(input@) ==> entry_possible(scores@, score_message_mode),
    ensures
        res == spec_plan_score_entry(
            scores@,
            score_message_mode,
            input@,
            leg.id,
            leg.leg_order,
            current_set.leg_amount,
        ),
{
    match parse_u16(input) {
        None => ScoreEntry::Rejected(ErrorMessageMode::NotANumber),
        Some(val) => {
            if valid_thrown(val) {
                match score_message_mode {
                    ScoreMessageMode::UndoLastShot { .. } => {
                        let last = scores[scores.len() - 1];
                        let next_throw_order = last.throw_order;
                        let snd_last = scores[scores.len() - 2];
                        ScoreEntry::Accepted(
                            make_plan(snd_last, val, next_throw_order, Some(next_throw_order), leg, current_set),
                        )
                    },
                    ScoreMessageMode::NewShot => {
                        let last = scores[scores.len() - 1];
                        let next_throw_order = last.throw_order + 1;
                        ScoreEntry::Accepted(make_plan(last, val, next_throw_order, None, leg, current_set))
                    },
                    _ => ScoreEntry::Rejected(ErrorMessageMode::TechnicalError),
                }
            } else {
                ScoreEntry::Rejected(ErrorMessageMode::NotADartsNumber)
            }
        },
    }
}

/// The visits after a plan is carried out: a correction replaces the last visit.
pub open spec fn applied(scores: Seq<Score>, plan: EntryPlan) -> Seq<Score> {
    if plan.corrected_throw_order is Some {
        scores.drop_last().push(plan.new_score)
    } else {
        scores.push(plan.new_score)
    }
}

pub fn apply_entry_plan(scores: &mut Vec<Score>, plan: &EntryPlan)
    requires
        plan.corrected_throw_order is Some ==> old(scores).len() >= 1,
    ensures
        final(scores)@ == applied(old(scores)@, *plan),
{
    if plan.corrected_throw_order.is_some() {
        scores.pop();
    }
    scores.push(plan.new_score);
}

/// The visits of a leg as they are kept: numbered 0, 1, 2, ... in order, the
/// remaining score never growing.
pub open spec fn leg_scores_well_formed(scores: Seq<Score>) -> bool {
    &&& scores.len() >= 1
    &&& forall|i: int| 0 <= i < scores.len() ==> #[trigger] scores[i].throw_order == i
    &&& forall|i: int, j: int| 0 <= i <= j < scores.len() ==> scores[j].remaining <= scores[i].remaining
}

/// Law: entering a visit keeps the visits of a leg numbered in order and the
/// remaining score never grows.
pub proof fn law_entry_keeps_leg_well_formed(
    scores: Seq<Score>,
    mode: ScoreMessageMode,
    input: Seq<char>,
    leg_id: u16,
    leg_order: u16,
    leg_amount: u16,
)
    requires
        leg_scores_well_formed(scores),
        scores.len() < u16::MAX,
        mode is UndoLastShot ==> scores.len() >= 2,
    ensures
        spec_plan_score_entry(scores, mode, input, leg_id, leg_order, leg_amount) matches ScoreEntry::Accepted(p)
            ==> leg_scores_well_formed(applied(scores, p)),
{
    let n = scores.len() as int;
    if let ScoreEntry::Accepted(p) = spec_plan_score_entry(scores, mode, input, leg_id, leg_order, leg_amount) {
        let r = applied(scores, p);
        assert(scores[n - 1].throw_order == n - 1);
        if mode is UndoLastShot {
            assert(scores[n - 2].throw_order == n - 2);
            assert forall|i: int, j: int| 0 <= i <= j < r.len() implies r[j].remaining <= r[i].remaining by {
                if j == r.len() - 1 && i < j {
                    assert(scores[n - 2].remaining <= scores[i].remaining);
                }
                if j < r.len() - 1 {
                    assert(r[j] == scores[j] && r[i] == scores[i]);
                }
            }
            assert forall|i: int| 0 <= i < r.len() implies #[trigger] r[i].throw_order == i by {
                if i < r.len() - 1 {
                    assert(r[i] == scores[i]);
                }
            }
        } else {
            assert forall|i: int, j: int| 0 <= i <= j < r.len() implies r[j].remaining <= r[i].remaining by {
                if j == r.len() - 1 && i < j {
                    assert(scores[n - 1].remaining <= scores[i].remaining);
                }
                if j < r.len() - 1 {
                    assert(r[j] == scores[j] && r[i] == scores[i]);
                }
            }
            assert forall|i: int| 0 <= i < r.len() implies #[trigger] r[i].throw_order == i by {
                if i < r.len() - 1 {
                    assert(r[i] == scores[i]);
                }
            }
        }
    }
}

/// Law: what an accepted entry does, in terms of the leg and the text entered. The
/// visit scores the number entered on top of the last visit (a correction: on top
/// of the one before, keeping the corrected visit's order); in both cases the leg
/// is finished exactly when the new visit leaves 0, the set exactly when that leg
/// is the set's last, and the message says so. An entry is accepted exactly when
/// the text is a darts score and a shot or a correction is expected.
pub proof fn law_entry_finishes_exactly_at_zero(
    scores: Seq<Score>,
    mode: ScoreMessageMode,
    input: Seq<char>,
    leg_id: u16,
    leg_order: u16,
    leg_amount: u16,
)
    requires
        scores.len() >= 1,
        mode is UndoLastShot ==> scores.len() >= 2,
    ensures
        (spec_plan_score_entry(scores, mode, input, leg_id, leg_order, leg_amount) is Accepted) == (
        entry_is_valid_throw(input) && (mode is NewShot || mode is UndoLastShot)),
        spec_plan_score_entry(scores, mode, input, leg_id, leg_order, leg_amount) matches ScoreEntry::Accepted(p)
            ==> {
            let n = scores.len() as int;
            let base = if mode is UndoLastShot { scores[n - 2] } else { scores[n - 1] };
            &&& spec_parse_u16(input) == Some(p.new_score.thrown)
            &&& p.new_score.leg_id == leg_id
            &&& p.new_score.double_attempt is None
            &&& p.new_score.remaining == spec_new_remaining(base.remaining as int, p.new_score.thrown as int)
            &&& mode is UndoLastShot ==> p.corrected_throw_order == Some(scores[n - 1].throw_order)
                && p.new_score.throw_order == scores[n - 1].throw_order
            &&& mode is NewShot ==> p.corrected_throw_order is None && (scores[n - 1].throw_order < u16::MAX
                ==> p.new_score.throw_order == scores[n - 1].throw_order + 1)
            &&& p.leg_finished == (p.new_score.remaining == 0)
            &&& p.set_finished == (p.new_score.remaining == 0 && leg_order == leg_amount)
            &&& p.next_mode == if p.new_score.remaining != 0 {
                ScoreMessageMode::NewShot
            } else if leg_order == leg_amount {
                ScoreMessageMode::SetFinished
            } else {
                ScoreMessageMode::LegFinished
            }
        },
{
}

/// Law: which error a refused entry shows: a text that is no number, a number
/// that no visit can score, and a score entered when neither a shot nor a
/// correction is expected.
pub proof fn law_entry_rejections(
    scores: Seq<Score>,
    mode: ScoreMessageMode,
    input: Seq<char>,
    leg_id: u16,
    leg_order: u16,
    leg_amount: u16,
)
    ensures
        spec_parse_u16(input) is None ==> spec_plan_score_entry(scores, mode, input, leg_id, leg_order, leg_amount)
            == ScoreEntry::Rejected(ErrorMessageMode::NotANumber),
        spec_parse_u16(input) matches Some(v) && !is_three_dart_total(v as int) ==> spec_plan_score_entry(
            scores,
            mode,
            input,
            leg_id,
            leg_order,
            leg_amount,
        ) == ScoreEntry::Rejected(ErrorMessageMode::NotADartsNumber),
        entry_is_valid_throw(input) && !(mode is NewShot || mode is UndoLastShot) ==> spec_plan_score_entry(
            scores,
            mode,
            input,
            leg_id,
            leg_order,
            leg_amount,
        ) == ScoreEntry::Rejected(ErrorMessageMode::TechnicalError),
{
}

/// Law: correcting the last visit with the value it had gives the visits back
/// unchanged.
pub proof fn law_correction_with_same_value_changes_nothing(
    scores: Seq<Score>,
    last_score: u16,
    leg_id: u16,
    leg_order: u16,
    leg_amount: u16,
)
    requires
        scores.len() >= 2,
        is_three_dart_total(scores.last().thrown as int),
        scores.last().remaining == spec_new_remaining(scores[scores.len() - 2].remaining as int, scores.last().thrown as int),
        scores.last().leg_id == leg_id,
        scores.last().double_attempt is None,
    ensures
        spec_plan_score_entry(
            scores,
            ScoreMessageMode::UndoLastShot { last_score },
            decimal(scores.last().thrown as nat),
            leg_id,
            leg_order,
            leg_amount,
        ) matches ScoreEntry::Accepted(p) && applied(scores, p) == scores,
{
    law_parse_decimal_round_trip(scores.last().thrown);
    let p = plan_from(
        scores[scores.len() - 2],
        scores.last().thrown,
        scores.last().throw_order,
        Some(scores.last().throw_order),
        leg_id,
        leg_order,
        leg_amount,
    );
    assert(p.new_score == scores.last());
    assert(applied(scores, p) =~= scores);
}

/// What pressing undo does: clear the error and, when there is a visit, ask for
/// its correction, handing its value back to the score field (0 without a visit).
pub fn undo_last_score(scores: &Vec<Score>, score_message_mode: ScoreMessageMode) -> (res: (ErrorMessageMode, ScoreMessageMode, u16))
    ensures
        res.0 == ErrorMessageMode::NoError,
        scores.len() > 0 ==> res.1 == (ScoreMessageMode::UndoLastShot { last_score: scores@.last().thrown })
            && res.2 == scores@.last().thrown,
        scores.len() == 0 ==> res.1 == score_message_mode && res.2 == 0,
{
    if scores.len() > 0 {
        let last_thrown = scores[scores.len() - 1].thrown;
        (ErrorMessageMode::NoError, ScoreMessageMode::UndoLastShot { last_score: last_thrown }, last_thrown)
    } else {
        (ErrorMessageMode::NoError, score_message_mode, 0)
    }
}

/// A new leg cancels the current one when it was left unfinished.
pub fn cancels_current_leg(scores: &Vec<Score>) -> (b: bool)
    ensures
        b == (scores.len() > 0 && scores@.last().remaining > 0),
{
    scores.len() > 0 && scores[scores.len() - 1].remaining > 0
}

/// Scoring is possible when both the message and the error allow it.
pub fn score_allowed(score_message_mode: ScoreMessageMode, error_message_mode: ErrorMessageMode) -> (b: bool)
    ensures
        b == ((score_message_mode is NewShot || score_message_mode is UndoLastShot) && (
        error_message_mode is NoError || error_message_mode is NotADartsNumber
            || error_message_mode is NotANumber)),
{
    score_message_mode.allow_score() && error_message_mode.allow_score()
}

/// Whether a valid visit can be entered on these visits in this mode.
pub fn entry_possible_for(scores: &Vec<Score>, score_message_mode: ScoreMessageMode) -> (b: bool)
    ensures
        b == entry_possible(scores@, score_message_mode),
{
    if scores.len() == 0 {
        return false;
    }
    match score_message_mode {
        ScoreMessageMode::UndoLastShot { .. } => scores.len() >= 2,
        ScoreMessageMode::NewShot => scores[scores.len() - 1].throw_order < 65535,
        _ => true,
    }
}

} // verus!
