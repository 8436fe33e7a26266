pub mod common;
pub mod double_throws_calculation;
pub mod recommendation_calculation;
pub mod statistic_calculation;
