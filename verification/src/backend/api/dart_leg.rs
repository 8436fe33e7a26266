use vstd::prelude::*;
use crate::backend::model::dart_leg::{DartLeg, NewDartLeg};
use crate::domain::{leg_status_text, LegStatus, Score};

verus! {

/// The order of the next leg of a set: one after the latest leg that is not
/// cancelled, or 1 for the first leg.
pub fn next_leg_order(latest_leg_of_set: Option<&DartLeg>) -> (order: u16)
    requires
        latest_leg_of_set matches Some(l) ==> l.leg_order < i32::MAX,
    ensures
        order == match latest_leg_of_set {
            Some(l) => (l.leg_order + 1) as u16,
            None => 1u16,
        },
{
    match latest_leg_of_set {
        Some(val) => (val.leg_order + 1) as u16,
        None => 1,
    }
}

/// The rows for `leg_amount` new legs of a set, numbered on from `leg_order_start`;
/// the first of them is ongoing, the others are not started yet.
pub fn plan_new_legs(set_id: u16, start_score: u16, leg_order_start: u16, leg_amount: u16) -> (legs: Vec<NewDartLeg>)
    requires
        leg_order_start + leg_amount <= u16::MAX,
    ensures
        legs.len() == leg_amount,
        forall|i: int|
            0 <= i < leg_amount ==> {
                &&& #[trigger] legs@[i].set_id == set_id
                &&& legs@[i].leg_order == leg_order_start + i
                &&& legs@[i].start_score == start_score
                &&& legs@[i].status@ == leg_status_text(
                    if i == 0 { LegStatus::Ongoing } else { LegStatus::Future },
                )
            },
{
    let mut legs: Vec<NewDartLeg> = Vec::new();
    let end = leg_order_start + leg_amount;
    let mut leg_order = leg_order_start;
    while leg_order < end
        invariant
            leg_order_start <= leg_order <= end,
            end == leg_order_start + leg_amount,
            legs.len() == leg_order - leg_order_start,
            forall|i: int|
                0 <= i < legs.len() ==> {
                    &&& #[trigger] legs@[i].set_id == set_id
                    &&& legs@[i].leg_order == leg_order_start + i
                    &&& legs@[i].start_score == start_score
                    &&& legs@[i].status@ == leg_status_text(
                        if i == 0 { LegStatus::Ongoing } else { LegStatus::Future },
                    )
                },
        decreases end - leg_order,
    {
        let leg = NewDartLeg::new_cond(set_id, leg_order, start_score, leg_order == leg_order_start);
        legs.push(leg);
        leg_order = leg_order + 1;
    }
    legs
}

/// The score that opens a new leg: the start score left, nothing thrown, order 0.
pub fn leg_init_score(leg_id: u16, start_score: u16) -> (s: Score)
    ensures
        s == (Score { leg_id, remaining: start_score, thrown: 0, throw_order: 0, double_attempt: None }),
{
    Score { leg_id, remaining: start_score, thrown: 0, throw_order: 0, double_attempt: None }
}

} // verus!
