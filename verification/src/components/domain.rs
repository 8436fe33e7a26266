use vstd::prelude::*;
use vstd::string::*;
use crate::decimal::{decimal, u32_to_decimal};

verus! {

/// The score shown in the score table: what is left, what was thrown and when.
#[derive(Clone, Copy, Debug, PartialEq, Eq, Structural)]
pub struct CurrentScore {
    pub remaining: u16,
    pub thrown: u16,
    pub throw_order: u16,
}

#[derive(Clone, Copy, Debug, PartialEq, Eq, Structural)]
pub struct ScoreMessage {
    pub score_message_mode: ScoreMessageMode,
    pub score_message_label: u16,
}

#[derive(Clone, Copy, Debug, PartialEq, Eq, Structural)]
pub enum ScoreMessageMode {
    NewScore,
    ResetLastScore { last_score: u16 },
    GameFinished,
}

pub open spec fn score_message_value(m: ScoreMessageMode) -> Seq<char> {
    match m {
        ScoreMessageMode::NewScore => "Enter the new score"@,
        ScoreMessageMode::ResetLastScore { last_score } => "Correct last entered Score: "@ + " "@
            + decimal(last_score as nat),
        ScoreMessageMode::GameFinished => "Game finished"@,
    }
}

impl ScoreMessageMode {
    pub fn value(&self) -> (s: String)
        ensures
            s@ == score_message_value(*self),
    {
        match self {
            ScoreMessageMode::NewScore => String::from_str("Enter the new score"),
            ScoreMessageMode::ResetLastScore { last_score } => {
                let mut s = String::from_str("Correct last entered Score: ");
                s.append(" ");
                let digits = u32_to_decimal(*last_score as u32);
                s.append(digits.as_str());
                s
            },
            ScoreMessageMode::GameFinished => String::from_str("Game finished"),
        }
    }
}

} // verus!
