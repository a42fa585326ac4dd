//! Authentication.

pub mod local;
