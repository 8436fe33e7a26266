use vstd::prelude::*;
use crate::domain::{leg_status_text, Leg, LegStatus};

verus! {

/// A row of the leg table.
#[derive(Clone, Debug, PartialEq, Eq)]
pub struct DartLeg {
    pub id: i32,
    pub set_id: i32,
    pub leg_order: i32,
    pub start_score: i32,
    pub status: String,
}

/// A leg row to insert; the database gives it its id.
#[derive(Clone, Debug, PartialEq, Eq)]
pub struct NewDartLeg {
    pub set_id: i32,
    pub status: String,
    pub leg_order: i32,
    pub start_score: i32,
}

impl NewDartLeg {
    pub fn new(set_id: u16, leg_order: u16, start_score: u16, status: LegStatus) -> (res: NewDartLeg)
        ensures
            res.set_id == set_id,
            res.leg_order == leg_order,
            res.start_score == start_score,
            res.status@ == leg_status_text(status),
    {
        NewDartLeg {
            status: status.display(),
            set_id: set_id as i32,
            leg_order: leg_order as i32,
            start_score: start_score as i32,
        }
    }

    /// A leg of a batch: the first is started at once, the others wait.
    pub fn new_cond(set_id: u16, leg_order: u16, start_score: u16, is_first: bool) -> (res: NewDartLeg)
        ensures
            res.set_id == set_id,
            res.leg_order == leg_order,
            res.start_score == start_score,
            res.status@ == leg_status_text(if is_first { LegStatus::Ongoing } else { LegStatus::Future }),
    {
        let status = if is_first { LegStatus::Ongoing } else { LegStatus::Future };
        NewDartLeg::new(set_id, leg_order, start_score, status)
    }
}

/// The leg that a row describes; numbers are narrowed to `u16` as `as` does.
pub fn map_db_to_domain(db: DartLeg) -> (leg: Leg)
    ensures
        leg.id == db.id as u16,
        leg.status == db.status,
        leg.leg_order == db.leg_order as u16,
        leg.start_score == db.start_score as u16,
        leg.last_score is None,
{
    Leg {
        id: db.id as u16,
        status: db.status,
        leg_order: db.leg_order as u16,
        start_score: db.start_score as u16,
        last_score: None,
    }
}

} // verus!
