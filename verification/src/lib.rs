//! Verified core of a small wallbox (OCPP charge point) management server.

pub mod auth;
pub mod config;
pub mod db;
pub mod domain;
pub mod error;
pub mod num;
pub mod ocpp;
pub mod order;
pub mod text;
pub mod web;
