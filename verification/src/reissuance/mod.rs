pub mod aggregate;
pub mod command;
pub mod error;
pub mod event;
pub mod policy;
pub mod process;
pub mod service;
pub mod views;
