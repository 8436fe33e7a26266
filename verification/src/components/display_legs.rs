use vstd::prelude::*;
use crate::decimal::{parse_u16, spec_parse_u16};
use crate::domain::{leg_status_text, parse_leg_status, Leg, LegStatus};

verus! {

/// How many legs of `legs` count towards the legs of the set (all but cancelled ones).
pub open spec fn counted_legs(legs: Seq<Leg>) -> nat
    decreases legs.len(),
{
    if legs.len() == 0 {
        0
    } else {
        counted_legs(legs.drop_last()) + if legs.last().status@ != leg_status_text(LegStatus::Cancelled) {
            1nat
        } else {
            0nat
        }
    }
}

pub open spec fn has_known_status(l: Leg) -> bool {
    exists|t: LegStatus| leg_status_text(t) == l.status@
}

proof fn lemma_counted_prefix(legs: Seq<Leg>, i: int)
    requires
        0 <= i < legs.len(),
    ensures
        counted_legs(legs.take(i + 1)) == counted_legs(legs.take(i)) + if legs[i].status@
            != leg_status_text(LegStatus::Cancelled) {
            1nat
        } else {
            0nat
        },
        counted_legs(legs.take(i)) <= i,
    decreases i,
{
    assert(legs.take(i + 1).drop_last() =~= legs.take(i));
    if i > 0 {
        lemma_counted_prefix(legs, i - 1);
    } else {
        assert(legs.take(0) =~= Seq::<Leg>::empty());
    }
}

/// How many more legs a set may get: its leg amount less the legs that count,
/// and 0 once the set is full. Every leg must carry one of the four status texts.
pub fn missing_legs(leg_amount: u16, legs: &Vec<Leg>) -> (missing: u16)
    requires
        forall|i: int| 0 <= i < legs.len() ==> has_known_status(#[trigger] legs@[i]),
    ensures
        missing == if leg_amount >= (counted_legs(legs@) as u16) {
            (leg_amount - (counted_legs(legs@) as u16)) as u16
        } else {
            0u16
        },
{
    let mut count_nr: usize = 0;
    let mut i: usize = 0;
    assert(legs@.take(0) =~= Seq::<Leg>::empty());
    while i < legs.len()
        invariant
            i <= legs.len(),
            forall|k: int| 0 <= k < legs.len() ==> has_known_status(#[trigger] legs@[k]),
            count_nr == counted_legs(legs@.take(i as int)),
        decreases legs.len() - i,
    {
        proof {
            lemma_counted_prefix(legs@, i as int);
        }
        assert(has_known_status(legs@[i as int]));
        let status = parse_leg_status(legs[i].status.clone());
        if status.count_towards_leg_amount() {
            proof {
                crate::domain::lemma_leg_status_texts_distinct();
            }
            count_nr = count_nr + 1;
        } else {
            proof {
                crate::domain::lemma_leg_status_texts_distinct();
            }
        }
        i = i + 1;
    }
    assert(legs@.take(legs.len() as int) =~= legs@);
    if leg_amount >= count_nr as u16 {
        leg_amount - count_nr as u16
    } else {
        0
    }
}

/// Whether the start score field holds a number (any number passes, 0 included).
pub fn start_score_accepted(raw: &String) -> (b: bool)
    ensures
        b == spec_parse_u16(raw@) is Some,
{
    parse_u16(raw).is_some()
}

/// Whether the leg amount field holds a number above 0.
pub fn leg_amount_accepted(raw: &String) -> (b: bool)
    ensures
        b == (spec_parse_u16(raw@) matches Some(v) && v > 0),
{
    match parse_u16(raw) {
        Some(v) => v > 0,
        None => false,
    }
}

} // verus!
