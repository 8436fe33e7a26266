use vstd::prelude::*;
use vstd::string::*;
use crate::decimal::{decimal, u32_to_decimal};

pub use crate::components::domain::CurrentScore;

verus! {

/// An id together with the position of the item in its parent.
#[derive(Clone, Copy, Debug, PartialEq, Eq, Structural)]
pub struct IdOrder {
    pub id: u16,
    pub order: u16,
}

/// An id, the position of the item in its parent and the parent's id.
#[derive(Clone, Copy, Debug, PartialEq, Eq, Structural)]
pub struct IdOrderParent {
    pub id: u16,
    pub order: u16,
    pub parent_id: u16,
}

/// One visit to the board: what was thrown and what is left afterwards.
#[derive(Clone, Copy, Debug, PartialEq, Eq, Structural)]
pub struct Score {
    pub leg_id: u16,
    pub remaining: u16,
    pub thrown: u16,
    pub throw_order: u16,
    pub double_attempt: Option<u16>,
}

/// The score that opens every leg: 501 left, nothing thrown, order 0.
pub fn init_score() -> (s: Score)
    ensures
        s == (Score { leg_id: 0, remaining: 501, thrown: 0, throw_order: 0, double_attempt: None }),
{
    Score { leg_id: 0, remaining: 501, thrown: 0, throw_order: 0, double_attempt: None }
}

#[derive(Clone, Debug, PartialEq, Eq)]
pub struct Leg {
    pub id: u16,
    pub leg_order: u16,
    pub start_score: u16,
    pub status: String,
    pub last_score: Option<u16>,
}

#[derive(Clone, Debug, PartialEq, Eq)]
pub struct GameSet {
    pub id: u16,
    pub set_order: u16,
    pub status: String,
    pub best_of: u16,
    pub leg_amount: u16,
}

#[derive(Clone, Debug, PartialEq, Eq)]
pub struct Match {
    pub id: u16,
    pub status: String,
}

/// Aggregates over the scores of the other legs of a set.
#[derive(Clone, Copy, Debug, PartialEq, Eq, Structural)]
pub struct Metric {
    pub sum: u16,
    pub score_amount: u16,
    pub throws: u16,
    pub amount_of_legs: u16,
    pub first_nine_per_leg_sum: u16,
    pub hundred_plus_amount: u16,
    pub double_attempts: u16,
}

#[derive(Clone, Copy, Debug, PartialEq, Eq, Structural)]
pub struct ScoreMessage {
    pub score_message_mode: ScoreMessageMode,
    pub score_message_label: u16,
}

#[derive(Clone, Copy, Debug, PartialEq, Eq, Structural)]
pub enum LegStatus {
    Ongoing,
    Finished,
    Cancelled,
    Future,
}

/// The text under which a leg status is shown and stored.
pub open spec fn leg_status_text(s: LegStatus) -> Seq<char> {
    match s {
        LegStatus::Finished => "Leg finished"@,
        LegStatus::Ongoing => "Ongoing"@,
        LegStatus::Cancelled => "Leg cancelled"@,
        LegStatus::Future => "Not started yet"@,
    }
}

/// The four leg status texts are pairwise different.
pub proof fn lemma_leg_status_texts_distinct()
    ensures
        forall|a: LegStatus, b: LegStatus| leg_status_text(a) == leg_status_text(b) ==> a == b,
{
    reveal_strlit("Leg finished");
    reveal_strlit("Ongoing");
    reveal_strlit("Leg cancelled");
    reveal_strlit("Not started yet");
    assert("Leg finished"@[0] != "Ongoing"@[0]);
    assert("Leg finished"@.len() != "Leg cancelled"@.len());
    assert("Leg finished"@[0] != "Not started yet"@[0]);
    assert("Ongoing"@[0] != "Leg cancelled"@[0]);
    assert("Ongoing"@[0] != "Not started yet"@[0]);
    assert("Leg cancelled"@[0] != "Not started yet"@[0]);
}

impl LegStatus {
    pub fn display(&self) -> (s: String)
        ensures
            s@ == leg_status_text(*self),
    {
        match self {
            LegStatus::Finished => String::from_str("Leg finished"),
            LegStatus::Ongoing => String::from_str("Ongoing"),
            LegStatus::Cancelled => String::from_str("Leg cancelled"),
            LegStatus::Future => String::from_str("Not started yet"),
        }
    }

    /// Every leg but a cancelled one counts towards the legs of its set.
    pub fn count_towards_leg_amount(&self) -> (b: bool)
        ensures
            b == (*self != LegStatus::Cancelled),
    {
        match self {
            LegStatus::Cancelled => false,
            _ => true,
        }
    }
}

/// Reads a leg status back from its text; only the four texts are accepted.
pub fn parse_leg_status(status_str: String) -> (s: LegStatus)
    requires
        exists|t: LegStatus| leg_status_text(t) == status_str@,
    ensures
        leg_status_text(s) == status_str@,
{
    proof {
        lemma_leg_status_texts_distinct();
    }
    if status_str == LegStatus::Ongoing.display() {
        LegStatus::Ongoing
    } else if status_str == LegStatus::Cancelled.display() {
        LegStatus::Cancelled
    } else if status_str == LegStatus::Future.display() {
        LegStatus::Future
    } else {
        proof {
            let t = choose|t: LegStatus| leg_status_text(t) == status_str@;
            assert(t == LegStatus::Finished);
        }
        LegStatus::Finished
    }
}

/// Whether a text is one of the four leg status texts.
pub fn is_known_leg_status(status_str: &String) -> (b: bool)
    ensures
        b == exists|t: LegStatus| leg_status_text(t) == status_str@,
{
    if *status_str == LegStatus::Ongoing.display() || *status_str == LegStatus::Cancelled.display()
        || *status_str == LegStatus::Future.display() || *status_str == LegStatus::Finished.display() {
        true
    } else {
        assert forall|t: LegStatus| leg_status_text(t) != status_str@ by {
            match t {
                LegStatus::Ongoing => {},
                LegStatus::Finished => {},
                LegStatus::Cancelled => {},
                LegStatus::Future => {},
            }
        }
        false
    }
}

/// Law: reading back the text of a leg status gives the status again.
pub proof fn law_parse_leg_status_round_trip(s: LegStatus, text: Seq<char>)
    requires
        text == leg_status_text(s),
    ensures
        forall|t: LegStatus| leg_status_text(t) == text ==> t == s,
{
    lemma_leg_status_texts_distinct();
}

#[derive(Clone, Copy, Debug, PartialEq, Eq, Structural)]
pub enum SetStatus {
    Ongoing,
    Finished,
    Cancelled,
}

pub open spec fn set_status_text(s: SetStatus) -> Seq<char> {
    match s {
        SetStatus::Finished => "Set finished"@,
        SetStatus::Ongoing => "Ongoing"@,
        SetStatus::Cancelled => "Set cancelled"@,
    }
}

impl SetStatus {
    pub fn value(&self) -> (s: String)
        ensures
            s@ == set_status_text(*self),
    {
        match self {
            SetStatus::Finished => String::from_str("Set finished"),
            SetStatus::Ongoing => String::from_str("Ongoing"),
            SetStatus::Cancelled => String::from_str("Set cancelled"),
        }
    }
}

#[derive(Clone, Copy, Debug, PartialEq, Eq, Structural)]
pub enum ScoreMessageMode {
    NewShot,
    UndoLastShot { last_score: u16 },
    LegFinished,
    LegCancelled,
    SetFinished,
}

/// The message shown above the score field for each mode.
pub open spec fn score_message_text(m: ScoreMessageMode) -> Seq<char> {
    match m {
        ScoreMessageMode::NewShot => "Enter Shot"@,
        ScoreMessageMode::UndoLastShot { last_score } => "Correct last Shot: "@ + " "@ + decimal(
            last_score as nat,
        ),
        ScoreMessageMode::LegFinished => "Leg finished"@,
        ScoreMessageMode::LegCancelled => "Leg cancelled"@,
        ScoreMessageMode::SetFinished => "Set finished"@,
    }
}

impl ScoreMessageMode {
    pub fn display(&self) -> (s: String)
        ensures
            s@ == score_message_text(*self),
    {
        match self {
            ScoreMessageMode::NewShot => String::from_str("Enter Shot"),
            ScoreMessageMode::UndoLastShot { last_score } => {
                let mut s = String::from_str("Correct last Shot: ");
                s.append(" ");
                let digits = u32_to_decimal(*last_score as u32);
                s.append(digits.as_str());
                s
            },
            ScoreMessageMode::LegFinished => String::from_str("Leg finished"),
            ScoreMessageMode::LegCancelled => String::from_str("Leg cancelled"),
            ScoreMessageMode::SetFinished => String::from_str("Set finished"),
        }
    }

    /// A score may be entered while a new shot or a correction is expected.
    pub fn allow_score(&self) -> (b: bool)
        ensures
            b == (*self is NewShot || *self is UndoLastShot),
    {
        match self {
            ScoreMessageMode::NewShot => true,
            ScoreMessageMode::UndoLastShot { last_score: _ } => true,
            _ => false,
        }
    }

    /// A new leg may be started once the current one is finished or cancelled.
    pub fn allow_new_leg(&self) -> (b: bool)
        ensures
            b == (*self is LegFinished || *self is LegCancelled),
    {
        match self {
            ScoreMessageMode::LegFinished => true,
            ScoreMessageMode::LegCancelled => true,
            _ => false,
        }
    }
}

/// The mode that a stored leg status puts the score field in.
pub open spec fn spec_parse_score_message(text: Seq<char>) -> ScoreMessageMode {
    if text == score_message_text(ScoreMessageMode::LegFinished) {
        ScoreMessageMode::LegFinished
    } else if text == score_message_text(ScoreMessageMode::LegCancelled) {
        ScoreMessageMode::LegCancelled
    } else if text == score_message_text(ScoreMessageMode::SetFinished) {
        ScoreMessageMode::SetFinished
    } else {
        ScoreMessageMode::NewShot
    }
}

pub fn parse_score_message(status_str: String) -> (m: ScoreMessageMode)
    ensures
        m == spec_parse_score_message(status_str@),
{
    if status_str == ScoreMessageMode::LegFinished.display() {
        ScoreMessageMode::LegFinished
    } else if status_str == ScoreMessageMode::LegCancelled.display() {
        ScoreMessageMode::LegCancelled
    } else if status_str == ScoreMessageMode::SetFinished.display() {
        ScoreMessageMode::SetFinished
    } else {
        ScoreMessageMode::NewShot
    }
}

/// Law: the message of every mode but a correction reads back as that mode.
pub proof fn law_parse_score_message_round_trip(m: ScoreMessageMode)
    requires
        !(m is UndoLastShot),
    ensures
        spec_parse_score_message(score_message_text(m)) == m,
{
    reveal_strlit("Enter Shot");
    reveal_strlit("Leg finished");
    reveal_strlit("Leg cancelled");
    reveal_strlit("Set finished");
    assert("Leg finished"@.len() != "Leg cancelled"@.len());
    assert("Leg finished"@[0] != "Set finished"@[0]);
    assert("Leg cancelled"@.len() != "Set finished"@.len());
    assert("Enter Shot"@.len() != "Leg finished"@.len());
    assert("Enter Shot"@.len() != "Leg cancelled"@.len());
    assert("Enter Shot"@.len() != "Set finished"@.len());
}

/// Law: a leg status read as a score message gives the matching mode: a finished
/// leg stops scoring, a cancelled leg allows a new one, any other status asks for a shot.
pub proof fn law_leg_status_to_score_message(s: LegStatus)
    ensures
        spec_parse_score_message(leg_status_text(s)) == match s {
            LegStatus::Finished => ScoreMessageMode::LegFinished,
            LegStatus::Cancelled => ScoreMessageMode::LegCancelled,
            _ => ScoreMessageMode::NewShot,
        },
{
    reveal_strlit("Ongoing");
    reveal_strlit("Not started yet");
    reveal_strlit("Leg finished");
    reveal_strlit("Leg cancelled");
    reveal_strlit("Set finished");
    assert("Leg finished"@.len() != "Leg cancelled"@.len());
    assert("Ongoing"@.len() != "Leg finished"@.len());
    assert("Ongoing"@.len() != "Leg cancelled"@.len());
    assert("Ongoing"@.len() != "Set finished"@.len());
    assert("Not started yet"@.len() != "Leg finished"@.len());
    assert("Not started yet"@.len() != "Leg cancelled"@.len());
    assert("Not started yet"@.len() != "Set finished"@.len());
}

#[derive(Clone, Copy, Debug, PartialEq, Eq, Structural)]
pub enum ErrorMessageMode {
    NoError,
    NotANumber,
    NotADartsNumber,
    LegAlreadyFinished,
    CreateNewLeg,
    TechnicalError,
}

pub open spec fn error_message_text(m: ErrorMessageMode) -> Option<Seq<char>> {
    match m {
        ErrorMessageMode::NoError => None,
        ErrorMessageMode::NotADartsNumber => Some("Invalid Darts number"@),
        ErrorMessageMode::NotANumber => Some("Not a number"@),
        ErrorMessageMode::LegAlreadyFinished => Some("Leg already finished"@),
        ErrorMessageMode::TechnicalError => Some("Technical error"@),
        ErrorMessageMode::CreateNewLeg => Some("Create a new  leg"@),
    }
}

impl ErrorMessageMode {
    pub fn value(&self) -> (s: Option<String>)
        ensures
            match (s, error_message_text(*self)) {
                (None, None) => true,
                (Some(v), Some(t)) => v@ == t,
                _ => false,
            },
    {
        match self {
            ErrorMessageMode::NoError => None,
            ErrorMessageMode::NotADartsNumber => Some(String::from_str("Invalid Darts number")),
            ErrorMessageMode::NotANumber => Some(String::from_str("Not a number")),
            ErrorMessageMode::LegAlreadyFinished => Some(String::from_str("Leg already finished")),
            ErrorMessageMode::TechnicalError => Some(String::from_str("Technical error")),
            ErrorMessageMode::CreateNewLeg => Some(String::from_str("Create a new  leg")),
        }
    }

    /// Input errors leave scoring possible; the others block it.
    pub fn allow_score(&self) -> (b: bool)
        ensures
            b == (*self is NoError || *self is NotADartsNumber || *self is NotANumber),
    {
        match self {
            ErrorMessageMode::NoError => true,
            ErrorMessageMode::NotADartsNumber => true,
            ErrorMessageMode::NotANumber => true,
            _ => false,
        }
    }
}

} // verus!
