use vstd::prelude::*;
use vstd::string::*;
use crate::domain::Match;

verus! {

/// A row of the match table.
#[derive(Clone, Debug, PartialEq, Eq)]
pub struct DartMatch {
    pub id: i32,
    pub status: String,
    pub title: Option<String>,
}

/// A match row to insert.
#[derive(Clone, Debug, PartialEq, Eq)]
pub struct NewMatch {
    pub status: String,
}

impl NewMatch {
    /// A new match starts as "ONGOING".
    pub fn new() -> (res: NewMatch)
        ensures
            res.status@ == "ONGOING"@,
    {
        NewMatch { status: String::from_str("ONGOING") }
    }
}

pub fn map_db_to_domain(db: DartMatch) -> (m: Match)
    ensures
        m.id == db.id as u16,
        m.status == db.status,
{
    Match { id: db.id as u16, status: db.status }
}

} // verus!
