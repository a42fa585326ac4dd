//! Chip management: assigning chips, and saving a chip learned in an
//! enrollment window.

use vstd::prelude::*;

use crate::domain::chip::{Chip, EnrollmentSession};
use crate::error::AppError;
use crate::num::{parse_i64, parse_i64_spec};
use crate::text::{chars_of, eq_str, opt_eq_str, opt_string_view, string_of, trimmed_nonempty, trimmed_opt};

verus! {

pub struct ChipRow {
    pub chip: Chip,
    pub employee_name: Option<String>,
}

impl ChipRow {
    /// The chip is booked to employee `eid`.
    pub fn is_assigned_to(&self, eid: &i64) -> (b: bool)
        ensures
            b == (self.chip.employee_id == Some(*eid)),
    {
        match self.chip.employee_id {
            Some(e) => e == *eid,
            None => false,
        }
    }
}

/// An employee offered for selection.
pub struct EmpOpt {
    pub id: i64,
    pub name: String,
}

pub struct UpdateForm {
    pub employee_id: Option<String>,
    pub label: Option<String>,
    pub kind: Option<String>,
    pub enabled: Option<String>,
    pub expires_at: Option<String>,
}

/// The values a chip is updated to.
pub struct ChipUpdate {
    pub employee_id: Option<i64>,
    pub label: Option<String>,
    pub kind: String,
    pub enabled: i64,
    pub expires_at: Option<String>,
}

/// A chip is booked to an employee or to guests.
pub open spec fn valid_kind(k: Seq<char>) -> bool {
    k == "employee"@ || k == "guest"@
}

pub open spec fn form_kind(k: Option<String>) -> Seq<char> {
    match k {
        Some(s) => s@,
        None => "employee"@,
    }
}

/// The chip update a form asks for: an empty or unreadable employee id
/// clears the assignment, empty texts are cleared, the category defaults to
/// `employee` and must be `employee` or `guest`, and the chip is enabled
/// only when the box sent `1`.
pub fn chip_update_from_form(form: &UpdateForm) -> (r: Result<ChipUpdate, AppError>)
    ensures
        !valid_kind(form_kind(form.kind)) ==> (r matches Err(AppError::BadRequest(m)) && m@
            == "Ungültige Kategorie."@),
        valid_kind(form_kind(form.kind)) ==> (r matches Ok(u) && u.employee_id == (match trimmed_opt(form.employee_id) {
            Some(t) => match parse_i64_spec(t) {
                Some(v) => Some(v as i64),
                None => None,
            },
            None => None,
        }) && opt_string_view(u.label) == trimmed_opt(form.label) && u.kind@ == form_kind(
            form.kind,
        ) && u.enabled == (if form.enabled matches Some(e) && e@ == "1"@ {
            1i64
        } else {
            0i64
        }) && opt_string_view(u.expires_at) == trimmed_opt(form.expires_at)),
{
    let employee_id: Option<i64> = match trimmed_nonempty(&form.employee_id) {
        Some(t) => {
            let cs = chars_of(t.as_str());
            parse_i64(cs.as_slice())
        },
        None => None,
    };
    let label = trimmed_nonempty(&form.label);
    let kind: String = match &form.kind {
        Some(k) => k.clone(),
        None => String::from_str("employee"),
    };
    if !eq_str(kind.as_str(), "employee") && !eq_str(kind.as_str(), "guest") {
        return Err(AppError::BadRequest(String::from_str("Ungültige Kategorie.")));
    }
    let enabled: i64 = if opt_eq_str(&form.enabled, "1") {
        1
    } else {
        0
    };
    let expires_at = trimmed_nonempty(&form.expires_at);
    Ok(ChipUpdate { employee_id, label, kind, enabled, expires_at })
}

pub struct EnrollForm {
    pub wallbox_id: Option<i64>,
}

pub struct EnrollSave {
    pub label: Option<String>,
    pub employee_id: Option<i64>,
    pub kind: String,
    pub expires_at: Option<String>,
}

/// The chip an enrollment window saves.
pub struct ChipInsert {
    pub id_tag: String,
    pub label: Option<String>,
    pub employee_id: Option<i64>,
    pub kind: String,
    pub expires_at: Option<String>,
}

/// Why a save from an enrollment window is refused, if it is: no chip seen
/// yet, the window already used, or an unknown category.
pub open spec fn enroll_refusal(sess: EnrollmentSession, kind: Seq<char>) -> Option<Seq<char>> {
    if sess.captured_id_tag is None {
        Some("Bisher wurde kein Chip erkannt – bitte an die Wallbox halten."@)
    } else if sess.consumed != 0 {
        Some("Enrollment bereits abgeschlossen."@)
    } else if !valid_kind(kind) {
        Some("Ungültige Kategorie."@)
    } else {
        None
    }
}

/// The window after a chip was saved from it: marked used, otherwise as it
/// was.
pub fn consumed_session(sess: EnrollmentSession) -> (s: EnrollmentSession)
    ensures
        s.consumed == 1,
        s.id == sess.id,
        s.started_by == sess.started_by,
        s.wallbox_id == sess.wallbox_id,
        s.expires_at == sess.expires_at,
        s.captured_id_tag == sess.captured_id_tag,
{
    EnrollmentSession { consumed: 1, ..sess }
}

/// A window gives at most one chip: once a chip was saved from it, every
/// further save is refused as already done.
pub proof fn lemma_one_chip_per_window(sess: EnrollmentSession, kind: Seq<char>)
    requires
        sess.captured_id_tag is Some,
        sess.consumed != 0,
    ensures
        enroll_refusal(sess, kind) == Some("Enrollment bereits abgeschlossen."@),
{
}

/// Checks an enrollment window and the save form: a chip must have been
/// seen, the window must still be open and the category valid. The label is
/// kept as sent; an empty expiry is none.
pub fn check_enroll_save(sess: &EnrollmentSession, form: &EnrollSave) -> (r: Result<ChipInsert, AppError>)
    ensures
        match enroll_refusal(*sess, form.kind@) {
            Some(m) => r matches Err(AppError::BadRequest(t)) && t@ == m,
            None => r is Ok,
        },
        sess.captured_id_tag is None ==> (r matches Err(AppError::BadRequest(m)) && m@
            == "Bisher wurde kein Chip erkannt – bitte an die Wallbox halten."@),
        sess.captured_id_tag is Some && sess.consumed != 0 ==> (r matches Err(
            AppError::BadRequest(m),
        ) && m@ == "Enrollment bereits abgeschlossen."@),
        sess.captured_id_tag is Some && sess.consumed == 0 && !valid_kind(form.kind@) ==> (r matches Err(
            AppError::BadRequest(m),
        ) && m@ == "Ungültige Kategorie."@),
        sess.captured_id_tag is Some && sess.consumed == 0 && valid_kind(form.kind@) ==> (r matches Ok(c)
            && c.id_tag@ == sess.captured_id_tag->0@ && opt_string_view(c.label)
            == opt_string_view(form.label) && c.employee_id == form.employee_id && c.kind@
            == form.kind@ && opt_string_view(c.expires_at) == trimmed_opt(form.expires_at)),
{
    let tag = match &sess.captured_id_tag {
        Some(t) => t.clone(),
        None => {
            return Err(
                AppError::BadRequest(
                    String::from_str("Bisher wurde kein Chip erkannt – bitte an die Wallbox halten."),
                ),
            );
        },
    };
    if sess.consumed != 0 {
        return Err(AppError::BadRequest(String::from_str("Enrollment bereits abgeschlossen.")));
    }
    if !eq_str(form.kind.as_str(), "employee") && !eq_str(form.kind.as_str(), "guest") {
        return Err(AppError::BadRequest(String::from_str("Ungültige Kategorie.")));
    }
    let label = match &form.label {
        Some(l) => Some(l.clone()),
        None => None,
    };
    Ok(
        ChipInsert {
            id_tag: tag,
            label,
            employee_id: form.employee_id,
            kind: form.kind.clone(),
            expires_at: trimmed_nonempty(&form.expires_at),
        },
    )
}

/// The answer when the captured tag is registered already.
pub fn tag_conflict(tag: &str) -> (e: AppError)
    ensures
        e matches AppError::Conflict(m) && m@ == "Chip-Tag "@ + tag@ + " ist bereits registriert."@,
{
    let mut m = String::from_str("Chip-Tag ");
    m.append(tag);
    m.append(" ist bereits registriert.");
    AppError::Conflict(m)
}

} // verus!
