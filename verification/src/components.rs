pub mod calculation;
pub mod calculations;
pub mod display_legs;
pub mod display_matches;
pub mod domain;
pub mod enter_panel;
pub mod main_score_component;
pub mod score_statistic;
