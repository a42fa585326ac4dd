//! Data model of the management server.

pub mod chip;
pub mod employee;
pub mod stats;
pub mod user;
pub mod wallbox;
