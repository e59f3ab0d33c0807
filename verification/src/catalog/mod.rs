pub mod aggregate;
pub mod command;
pub mod error;
pub mod event;
pub mod services;
pub mod views;
pub mod laws;
