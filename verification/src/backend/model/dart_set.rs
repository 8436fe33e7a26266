use vstd::prelude::*;
use vstd::string::*;
use crate::domain::GameSet;

verus! {

/// A row of the set table.
#[derive(Clone, Debug, PartialEq, Eq)]
pub struct DartSet {
    pub id: i32,
    pub match_id: i32,
    pub set_order: i32,
    pub leg_amount: i32,
    pub status: String,
}

/// A set row to insert.
#[derive(Clone, Debug, PartialEq, Eq)]
pub struct NewDartSet {
    pub match_id: i32,
    pub set_order: i32,
    pub leg_amount: i32,
    pub status: String,
}

impl NewDartSet {
    /// A new set starts as "ONGOING".
    pub fn new(match_id: i32, set_order: i32, leg_amount: i32) -> (res: NewDartSet)
        ensures
            res.match_id == match_id,
            res.set_order == set_order,
            res.leg_amount == leg_amount,
            res.status@ == "ONGOING"@,
    {
        NewDartSet { status: String::from_str("ONGOING"), match_id, set_order, leg_amount }
    }
}

/// The set that a row describes; a set is played over all its legs, so it is
/// the best of its leg amount.
pub fn map_db_to_domain(db: DartSet) -> (set: GameSet)
    ensures
        set.id == db.id as u16,
        set.status == db.status,
        set.set_order == db.set_order as u16,
        set.leg_amount == db.leg_amount as u16,
        set.best_of == db.leg_amount as u16,
{
    GameSet {
        id: db.id as u16,
        status: db.status,
        set_order: db.set_order as u16,
        best_of: db.leg_amount as u16,
        leg_amount: db.leg_amount as u16,
    }
}

} // verus!
