//! The web interface: what its pages decide and compute.

pub mod views;
