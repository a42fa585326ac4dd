//! OCPP protocol handling: wire frames, the connection registry and the
//! version-specific endpoints.

pub mod wire;
pub mod hub;
pub mod soap15;
pub mod ocpp20;

pub use wire::{OcppCallError, OcppMessage};
