use vstd::prelude::*;
use crate::domain::Score;

verus! {

/// A row of the score table.
#[derive(Clone, Copy, Debug, PartialEq, Eq, Structural)]
pub struct DartScore {
    pub id: i32,
    pub leg_id: i32,
    pub throw_order: i32,
    pub thrown: i32,
    pub remaining: i32,
    pub double_attempt: Option<i32>,
    pub deleted: bool,
}

/// A score row to insert.
#[derive(Clone, Copy, Debug, PartialEq, Eq, Structural)]
pub struct NewDartScore {
    pub leg_id: i32,
    pub throw_order: i32,
    pub thrown: i32,
    pub remaining: i32,
    pub double_attempt: Option<i32>,
    pub deleted: bool,
}

pub open spec fn spec_score_from_db(db: DartScore) -> Score {
    Score {
        leg_id: db.leg_id as u16,
        remaining: db.remaining as u16,
        thrown: db.thrown as u16,
        throw_order: db.throw_order as u16,
        double_attempt: match db.double_attempt {
            Some(v) => Some(v as u16),
            None => None,
        },
    }
}

pub open spec fn spec_score_to_db(s: Score) -> NewDartScore {
    NewDartScore {
        leg_id: s.leg_id as i32,
        throw_order: s.throw_order as i32,
        thrown: s.thrown as i32,
        remaining: s.remaining as i32,
        double_attempt: match s.double_attempt {
            Some(v) => Some(v as i32),
            None => None,
        },
        deleted: false,
    }
}

/// The row the database holds after inserting `n` under the id `id`.
pub open spec fn stored_row(n: NewDartScore, id: i32) -> DartScore {
    DartScore {
        id,
        leg_id: n.leg_id,
        throw_order: n.throw_order,
        thrown: n.thrown,
        remaining: n.remaining,
        double_attempt: n.double_attempt,
        deleted: n.deleted,
    }
}

pub fn map_db_to_domain(db: DartScore) -> (s: Score)
    ensures
        s == spec_score_from_db(db),
{
    Score {
        leg_id: db.leg_id as u16,
        remaining: db.remaining as u16,
        thrown: db.thrown as u16,
        throw_order: db.throw_order as u16,
        double_attempt: match db.double_attempt {
            Some(val) => Some(val as u16),
            None => None,
        },
    }
}

/// The row to insert for a new score; it is not deleted.
pub fn map_domain_to_undeleted_db(domain: Score) -> (n: NewDartScore)
    ensures
        n == spec_score_to_db(domain),
{
    NewDartScore {
        leg_id: domain.leg_id as i32,
        throw_order: domain.throw_order as i32,
        thrown: domain.thrown as i32,
        remaining: domain.remaining as i32,
        double_attempt: match domain.double_attempt {
            Some(val) => Some(val as i32),
            None => None,
        },
        deleted: false,
    }
}

/// Law: a score written to the database reads back unchanged, whatever id it got.
pub proof fn law_score_db_round_trip(s: Score, id: i32)
    ensures
        spec_score_from_db(stored_row(spec_score_to_db(s), id)) == s,
        !stored_row(spec_score_to_db(s), id).deleted,
{
}

} // verus!
