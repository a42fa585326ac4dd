//! RFID chips (id tags) and the enrollment windows in which a new chip is
//! learned from the next tag a wallbox reports.

use vstd::prelude::*;

verus! {

#[derive(Debug, Clone)]
pub struct Chip {
    pub id: i64,
    pub id_tag: String,
    pub label: Option<String>,
    pub employee_id: Option<i64>,
    pub kind: String,
    pub enabled: i64,
    pub expires_at: Option<String>,
    pub created_at: String,
}

/// An enrollment window, as far as saving its chip reads it.
#[derive(Debug, Clone)]
pub struct EnrollmentSession {
    pub id: i64,
    pub started_by: i64,
    pub wallbox_id: Option<i64>,
    pub expires_at: String,
    pub captured_id_tag: Option<String>,
    pub consumed: i64,
}

} // verus!
