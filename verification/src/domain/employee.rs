//! Employees, to whom chips and charging sessions are booked.

use vstd::prelude::*;

verus! {

#[derive(Debug, Clone)]
pub struct Employee {
    pub id: i64,
    pub display_name: String,
    pub email: Option<String>,
    pub department: Option<String>,
    pub active: i64,
    pub created_at: String,
}

} // verus!
