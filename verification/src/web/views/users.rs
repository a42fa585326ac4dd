//! User administration: the checks of the forms.

use vstd::prelude::*;

use crate::error::AppError;
use crate::text::{chars_of, eq_str, opt_string_view, trim, trim_str, trimmed_nonempty, trimmed_opt};

verus! {

pub struct CreateForm {
    pub username: String,
    pub display_name: String,
    pub email: Option<String>,
    pub role: String,
    pub password: String,
}

pub struct PwForm {
    pub password: String,
}

/// The number of characters of a text.
fn char_count(s: &str) -> (n: usize)
    ensures
        n == s@.len(),
{
    let cs = chars_of(s);
    cs.len()
}

/// The values a new local user is stored with (before hashing the password).
pub struct NewUser {
    pub username: String,
    pub display_name: String,
    pub email: Option<String>,
    pub role: String,
}

/// Checks the form of a new local user: user name and name must not be
/// empty once trimmed and the password has at least 6 characters; the role is
/// `admin` or `user`.
pub fn check_user_create(form: &CreateForm) -> (r: Result<NewUser, AppError>)
    ensures
        ({
            let bad = trim(form.username@).len() == 0 || trim(form.display_name@).len() == 0
                || form.password@.len() < 6;
            &&& bad ==> (r matches Err(AppError::BadRequest(m)) && m@
                == "Benutzername, Name und Passwort (≥6 Zeichen) sind Pflicht."@)
            &&& !bad && !(form.role@ == "admin"@ || form.role@ == "user"@) ==> (r matches Err(
                AppError::BadRequest(m),
            ) && m@ == "Ungültige Rolle."@)
            &&& !bad && (form.role@ == "admin"@ || form.role@ == "user"@) ==> (r matches Ok(u)
                && u.username@ == trim(form.username@) && u.display_name@ == trim(
                form.display_name@,
            ) && opt_string_view(u.email) == trimmed_opt(form.email) && u.role@ == form.role@)
        }),
{
    let username = trim_str(form.username.as_str());
    let display = trim_str(form.display_name.as_str());
    if username.as_str().is_empty() || display.as_str().is_empty() || char_count(form.password.as_str()) < 6 {
        return Err(
            AppError::BadRequest(
                String::from_str("Benutzername, Name und Passwort (≥6 Zeichen) sind Pflicht."),
            ),
        );
    }
    if !eq_str(form.role.as_str(), "admin") && !eq_str(form.role.as_str(), "user") {
        return Err(AppError::BadRequest(String::from_str("Ungültige Rolle.")));
    }
    Ok(
        NewUser {
            username,
            display_name: display,
            email: trimmed_nonempty(&form.email),
            role: form.role.clone(),
        },
    )
}

/// The answer when the user name is taken.
pub fn username_conflict(username: &str) -> (e: AppError)
    ensures
        e matches AppError::Conflict(m) && m@ == "Benutzername '"@ + username@ + "' existiert bereits."@,
{
    let mut m = String::from_str("Benutzername '");
    m.append(username);
    m.append("' existiert bereits.");
    AppError::Conflict(m)
}

/// An admin cannot delete their own account.
pub fn check_user_delete(id: i64, admin_id: i64) -> (r: Result<(), AppError>)
    ensures
        id == admin_id ==> (r matches Err(AppError::BadRequest(m)) && m@
            == "Sie können sich nicht selbst löschen."@),
        id != admin_id ==> r is Ok,
{
    if id == admin_id {
        Err(AppError::BadRequest(String::from_str("Sie können sich nicht selbst löschen.")))
    } else {
        Ok(())
    }
}

/// A new password has at least 6 characters.
pub fn check_new_password(form: &PwForm) -> (r: Result<(), AppError>)
    ensures
        form.password@.len() < 6 ==> (r matches Err(AppError::BadRequest(m)) && m@
            == "Passwort muss mindestens 6 Zeichen haben."@),
        form.password@.len() >= 6 ==> r is Ok,
{
    if char_count(form.password.as_str()) < 6 {
        Err(AppError::BadRequest(String::from_str("Passwort muss mindestens 6 Zeichen haben.")))
    } else {
        Ok(())
    }
}

} // verus!
