pub mod backend;
pub mod components;
pub mod decimal;
pub mod domain;
