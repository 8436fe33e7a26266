pub mod dart_leg;
pub mod dart_match;
pub mod dart_score;
pub mod dart_set;
