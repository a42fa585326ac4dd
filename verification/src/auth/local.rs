//! Login against the local user table.

use vstd::prelude::*;

use crate::db::{verify_outcome, verify_password};
use crate::domain::user::User;

verus! {

/// The outcome of a local login, given the enabled local user found under
/// the user name (if any): the user when the password matches their stored
/// hash; no user when there is none, it has no password or the password is
/// wrong; the hash's parse error otherwise.
pub fn try_login(user: Option<User>, password: &str) -> (r: Result<Option<User>, String>)
    ensures
        match user {
            None => r matches Ok(None),
            Some(u) => match u.password_hash {
                None => r matches Ok(None),
                Some(h) => match verify_outcome(password@, h@) {
                    Ok(true) => r == Ok::<Option<User>, String>(Some(u)),
                    Ok(false) => r matches Ok(None),
                    Err(e) => r matches Err(m) && m@ == e,
                },
            },
        },
{
    let user = match user {
        Some(u) => u,
        None => {
            return Ok(None);
        },
    };
    let ok = match &user.password_hash {
        Some(h) => verify_password(password, h.as_str()),
        None => {
            return Ok(None);
        },
    };
    match ok {
        Ok(true) => Ok(Some(user)),
        Ok(false) => Ok(None),
        Err(e) => Err(e),
    }
}

} // verus!
