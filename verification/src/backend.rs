pub mod api;
pub mod model;
