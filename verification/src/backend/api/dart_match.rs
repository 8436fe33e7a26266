use vstd::prelude::*;
use vstd::string::*;
use crate::decimal::{i32_to_decimal, int_decimal};

verus! {

/// The title of a new match: the one given, or "Match" and its id.
pub fn match_title(title_maybe: Option<String>, match_id: i32) -> (title: String)
    ensures
        title@ == match title_maybe {
            Some(t) => t@,
            None => "Match "@ + int_decimal(match_id as int),
        },
{
    match title_maybe {
        Some(t) => t,
        None => {
            let mut t = String::from_str("Match ");
            let digits = i32_to_decimal(match_id);
            t.append(digits.as_str());
            t
        },
    }
}

} // verus!
