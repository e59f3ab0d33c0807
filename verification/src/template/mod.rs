pub mod aggregate;
pub mod command;
pub mod error;
pub mod event;
pub mod laws;
pub mod normalize;
pub mod open_badges;
pub mod schema;
pub mod types;
pub mod views;
