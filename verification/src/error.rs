//! Errors of the web layer and the HTTP answer each one gets.

use vstd::prelude::*;

verus! {

/// `sqlx::Error`, carried through unchanged.
#[verifier::external_type_specification]
#[verifier::external_body]
pub struct ExSqlxError(sqlx::Error);

/// `anyhow::Error`, carried through unchanged.
#[verifier::external_type_specification]
#[verifier::external_body]
pub struct ExAnyhowError(anyhow::Error);

pub enum AppError {
    Db(sqlx::Error),
    NotFound,
    Unauthorized,
    Forbidden,
    BadRequest(String),
    Conflict(String),
    Other(anyhow::Error),
}

/// The status code and body text the error is answered with. Internal
/// failures (database and others) get a generic text, never their details.
pub open spec fn response_spec(e: AppError) -> (u16, Seq<char>) {
    match e {
        AppError::NotFound => (404, "Nicht gefunden"@),
        AppError::Unauthorized => (401, "Nicht autorisiert"@),
        AppError::Forbidden => (403, "Verboten"@),
        AppError::BadRequest(m) => (400, "Ungültige Eingabe: "@ + m@),
        AppError::Conflict(m) => (409, m@),
        AppError::Db(_) => (500, "Interner Fehler"@),
        AppError::Other(_) => (500, "Interner Fehler"@),
    }
}

impl AppError {
    /// Status code and body text of the HTTP answer to this error.
    pub fn response_parts(&self) -> (r: (u16, String))
        ensures
            r.0 == response_spec(*self).0,
            r.1@ == response_spec(*self).1,
    {
        match self {
            AppError::NotFound => (404, String::from_str("Nicht gefunden")),
            AppError::Unauthorized => (401, String::from_str("Nicht autorisiert")),
            AppError::Forbidden => (403, String::from_str("Verboten")),
            AppError::BadRequest(m) => {
                let mut s = String::from_str("Ungültige Eingabe: ");
                s.append(m.as_str());
                (400, s)
            },
            AppError::Conflict(m) => (409, m.clone()),
            AppError::Db(_) => (500, String::from_str("Interner Fehler")),
            AppError::Other(_) => (500, String::from_str("Interner Fehler")),
        }
    }

    /// A `BadRequest` with the given text.
    pub fn bad_request(m: &str) -> (e: AppError)
        ensures
            e matches AppError::BadRequest(t) && t@ == m@,
    {
        AppError::BadRequest(String::from_str(m))
    }
}

/// Internal failures are answered with status 500 and a text that says
/// nothing of their cause.
pub proof fn lemma_internal_errors_hide_details(e: AppError)
    requires
        e is Db || e is Other,
    ensures
        response_spec(e) == (500u16, "Interner Fehler"@),
{
}

/// Each error gets its own HTTP status: 404 not found, 401 not
/// authorised, 403 forbidden, 400 for bad input (its text after
/// `Ungültige Eingabe: `), 409 for a conflict (its text alone), and 500 with
/// a fixed text for database and other failures.
pub proof fn lemma_error_statuses(e: AppError)
    ensures
        e is NotFound ==> response_spec(e) == (404u16, "Nicht gefunden"@),
        e is Unauthorized ==> response_spec(e) == (401u16, "Nicht autorisiert"@),
        e is Forbidden ==> response_spec(e) == (403u16, "Verboten"@),
        e matches AppError::BadRequest(m) ==> response_spec(e).0 == 400 && response_spec(e).1
            == "Ungültige Eingabe: "@ + m@,
        e matches AppError::Conflict(m) ==> response_spec(e) == (409u16, m@),
        (e is Db || e is Other) ==> response_spec(e) == (500u16, "Interner Fehler"@),
        400 <= response_spec(e).0 < 600,
{
}

} // verus!
