//! Users of the web interface and their sessions.

use vstd::prelude::*;

use crate::text::eq_str;

verus! {

#[derive(Debug, Clone)]
pub struct User {
    pub id: i64,
    pub username: String,
    pub display_name: String,
    pub email: Option<String>,
    pub role: String,
    pub auth_source: String,
    pub password_hash: Option<String>,
    pub external_id: Option<String>,
    pub disabled: i64,
    pub created_at: String,
}

impl User {
    /// The user has the role `admin`.
    pub fn is_admin(&self) -> (b: bool)
        ensures
            b == (self.role@ == "admin"@),
    {
        eq_str(self.role.as_str(), "admin")
    }

    /// The account is disabled (any non-zero flag).
    pub fn is_disabled(&self) -> (b: bool)
        ensures
            b == (self.disabled != 0),
    {
        self.disabled != 0
    }
}

#[derive(Debug, Clone)]
pub struct Session {
    pub token: String,
    pub user_id: i64,
    pub created_at: String,
    pub expires_at: String,
}

} // verus!
