pub mod aggregate;
pub mod command;
pub mod error;
pub mod event;
pub mod model;
pub mod views;
pub mod startup;
