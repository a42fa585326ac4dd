//! Page logic, one module per page.

pub mod auth;
pub mod chips;
pub mod employees;
pub mod reports;
pub mod stats;
pub mod transactions;
pub mod users;

use vstd::prelude::*;

use crate::domain::user::User;

verus! {

/// What every page's layout shows: the active menu entry, the signed-in
/// user and an optional flash message.
#[derive(Debug, Clone)]
pub struct LayoutCtx {
    pub active: &'static str,
    pub user: Option<User>,
    pub flash: Option<String>,
}

impl LayoutCtx {
    /// A layout without flash message.
    pub fn new(active: &'static str, user: Option<User>) -> (c: LayoutCtx)
        ensures
            c.active == active,
            c.user == user,
            c.flash is None,
    {
        LayoutCtx { active, user, flash: None }
    }
}

} // verus!
