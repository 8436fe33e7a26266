use vstd::prelude::*;
use crate::domain::{
    parse_score_message, set_status_text, spec_parse_score_message, ScoreMessageMode, SetStatus,
};

verus! {

/// The message a score panel opens with: a finished set says so, otherwise the
/// status of the leg decides.
pub fn initial_score_message(set_status: &String, leg_status: String) -> (m: ScoreMessageMode)
    ensures
        m == if set_status@ == set_status_text(SetStatus::Finished) {
            ScoreMessageMode::SetFinished
        } else {
            spec_parse_score_message(leg_status@)
        },
{
    if *set_status == SetStatus::Finished.value() {
        ScoreMessageMode::SetFinished
    } else {
        parse_score_message(leg_status)
    }
}

} // verus!
