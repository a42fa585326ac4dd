use easy_occp::domain::chip::{Chip, EnrollmentSession};
use easy_occp::domain::employee::Employee;
use easy_occp::error::AppError;
use easy_occp::web::views::chips::{
    check_enroll_save, chip_update_from_form, consumed_session, tag_conflict, ChipRow, EnrollSave, UpdateForm,
};
use easy_occp::web::views::employees::{
    employee_from_create, employee_from_update, employee_row, recent_tx, CreateForm as EmpCreate,
    UpdateForm as EmpUpdate,
};
use easy_occp::web::views::users::{
    check_new_password, check_user_create, check_user_delete, username_conflict, CreateForm, PwForm,
};

fn s(x: &str) -> Option<String> {
    Some(x.to_string())
}

fn bad(e: AppError) -> String {
    match e {
        AppError::BadRequest(m) => m,
        _ => panic!("not a bad request"),
    }
}

fn chip(employee_id: Option<i64>) -> Chip {
    Chip {
        id: 1,
        id_tag: "04A1B2".to_string(),
        label: None,
        employee_id,
        kind: "employee".to_string(),
        enabled: 1,
        expires_at: None,
        created_at: "2024-01-01T00:00:00+00:00".to_string(),
    }
}

#[test]
fn chip_row_assignment() {
    let r = ChipRow { chip: chip(Some(7)), employee_name: s("Anna") };
    assert!(r.is_assigned_to(&7));
    assert!(!r.is_assigned_to(&8));
    let g = ChipRow { chip: chip(None), employee_name: None };
    assert!(!g.is_assigned_to(&7));
}

#[test]
fn chip_update_reads_the_form() {
    let f = UpdateForm {
        employee_id: s(" 12 "),
        label: s("  Firmenwagen "),
        kind: s("guest"),
        enabled: s("1"),
        expires_at: s(" 2025-01-01 "),
    };
    let u = chip_update_from_form(&f).ok().expect("valid");
    assert_eq!(u.employee_id, Some(12));
    assert_eq!(u.label.as_deref(), Some("Firmenwagen"));
    assert_eq!(u.kind, "guest");
    assert_eq!(u.enabled, 1);
    assert_eq!(u.expires_at.as_deref(), Some("2025-01-01"));
}

#[test]
fn chip_update_defaults_and_clears() {
    let f = UpdateForm { employee_id: s("  "), label: s(""), kind: None, enabled: None, expires_at: None };
    let u = chip_update_from_form(&f).ok().expect("valid");
    assert_eq!(u.employee_id, None);
    assert_eq!(u.label, None);
    assert_eq!(u.kind, "employee");
    assert_eq!(u.enabled, 0);
    assert_eq!(u.expires_at, None);
    let f = UpdateForm { employee_id: s("abc"), label: None, kind: None, enabled: s("on"), expires_at: None };
    let u = chip_update_from_form(&f).ok().expect("valid");
    assert_eq!(u.employee_id, None);
    assert_eq!(u.enabled, 0);
    let f = UpdateForm { employee_id: s("+5"), label: None, kind: None, enabled: None, expires_at: None };
    assert_eq!(chip_update_from_form(&f).ok().unwrap().employee_id, Some(5));
}

#[test]
fn chip_update_rejects_unknown_kind() {
    let f = UpdateForm { employee_id: None, label: None, kind: s("vip"), enabled: None, expires_at: None };
    assert_eq!(bad(chip_update_from_form(&f).err().unwrap()), "Ungültige Kategorie.");
}

fn session(tag: Option<&str>, consumed: i64) -> EnrollmentSession {
    EnrollmentSession {
        id: 3,
        started_by: 1,
        wallbox_id: Some(2),
        expires_at: "2024-01-01T00:02:00+00:00".to_string(),
        captured_id_tag: tag.map(|t| t.to_string()),
        consumed,
    }
}

fn save(kind: &str) -> EnrollSave {
    EnrollSave { label: s(" Gast 1 "), employee_id: Some(4), kind: kind.to_string(), expires_at: s("   ") }
}

#[test]
fn enroll_save_checks_the_window() {
    assert_eq!(
        bad(check_enroll_save(&session(None, 0), &save("guest")).err().unwrap()),
        "Bisher wurde kein Chip erkannt – bitte an die Wallbox halten."
    );
    assert_eq!(
        bad(check_enroll_save(&session(Some("T1"), 1), &save("guest")).err().unwrap()),
        "Enrollment bereits abgeschlossen."
    );
    assert_eq!(
        bad(check_enroll_save(&session(Some("T1"), 0), &save("other")).err().unwrap()),
        "Ungültige Kategorie."
    );
}

#[test]
fn enroll_save_builds_the_chip() {
    let c = check_enroll_save(&session(Some("T1"), 0), &save("guest")).ok().expect("valid");
    assert_eq!(c.id_tag, "T1");
    assert_eq!(c.label.as_deref(), Some(" Gast 1 "));
    assert_eq!(c.employee_id, Some(4));
    assert_eq!(c.kind, "guest");
    assert_eq!(c.expires_at, None);
}

#[test]
fn tag_conflict_message() {
    match tag_conflict("T1") {
        AppError::Conflict(m) => assert_eq!(m, "Chip-Tag T1 ist bereits registriert."),
        _ => panic!("not a conflict"),
    }
}

fn user_form(username: &str, name: &str, role: &str, pw: &str) -> CreateForm {
    CreateForm {
        username: username.to_string(),
        display_name: name.to_string(),
        email: s("  "),
        role: role.to_string(),
        password: pw.to_string(),
    }
}

#[test]
fn user_create_valid() {
    let u = check_user_create(&user_form("  anna ", " Anna A. ", "user", "secret")).ok().expect("valid");
    assert_eq!(u.username, "anna");
    assert_eq!(u.display_name, "Anna A.");
    assert_eq!(u.email, None);
    assert_eq!(u.role, "user");
}

#[test]
fn user_create_required_fields() {
    let msg = "Benutzername, Name und Passwort (≥6 Zeichen) sind Pflicht.";
    assert_eq!(bad(check_user_create(&user_form(" ", "Anna", "user", "secret")).err().unwrap()), msg);
    assert_eq!(bad(check_user_create(&user_form("anna", "", "user", "secret")).err().unwrap()), msg);
    assert_eq!(bad(check_user_create(&user_form("anna", "Anna", "user", "12345")).err().unwrap()), msg);
    // the length counts characters, not bytes
    assert_eq!(bad(check_user_create(&user_form("anna", "Anna", "user", "äöü")).err().unwrap()), msg);
    assert!(check_user_create(&user_form("anna", "Anna", "admin", "äöüäöü")).is_ok());
    assert_eq!(
        bad(check_user_create(&user_form("anna", "Anna", "root", "secret")).err().unwrap()),
        "Ungültige Rolle."
    );
}

#[test]
fn user_delete_and_password_rules() {
    assert_eq!(bad(check_user_delete(3, 3).err().unwrap()), "Sie können sich nicht selbst löschen.");
    assert!(check_user_delete(4, 3).is_ok());
    assert_eq!(
        bad(check_new_password(&PwForm { password: "short".to_string() }).err().unwrap()),
        "Passwort muss mindestens 6 Zeichen haben."
    );
    assert!(check_new_password(&PwForm { password: "longer".to_string() }).is_ok());
    assert!(check_new_password(&PwForm { password: "ßßß".to_string() }).is_err());
    match username_conflict("anna") {
        AppError::Conflict(m) => assert_eq!(m, "Benutzername 'anna' existiert bereits."),
        _ => panic!("not a conflict"),
    }
}

fn employee() -> Employee {
    Employee {
        id: 9,
        display_name: "Anna".to_string(),
        email: None,
        department: s("IT"),
        active: 1,
        created_at: "2024-01-01T00:00:00+00:00".to_string(),
    }
}

#[test]
fn employee_rows_clamp_energy() {
    let r = employee_row(employee(), 2, 5, -30);
    assert_eq!((r.emp.id, r.chip_count, r.tx_count, r.total_wh), (9, 2, 5, 0));
    assert_eq!(employee_row(employee(), 0, 0, 1234).total_wh, 1234);
}

#[test]
fn employee_forms() {
    let c = employee_from_create(&EmpCreate { display_name: " Bernd ".to_string(), email: s(" b@x.de "), department: s("") })
        .expect("valid");
    assert_eq!(c.display_name, "Bernd");
    assert_eq!(c.email.as_deref(), Some("b@x.de"));
    assert_eq!(c.department, None);
    assert_eq!(c.active, 1);
    assert!(employee_from_create(&EmpCreate { display_name: "   ".to_string(), email: None, department: None }).is_none());
    let u = employee_from_update(&EmpUpdate {
        display_name: "Bernd".to_string(),
        email: None,
        department: s(" Lager "),
        active: None,
    })
    .expect("valid");
    assert_eq!(u.department.as_deref(), Some("Lager"));
    assert_eq!(u.active, 0);
    let u = employee_from_update(&EmpUpdate { display_name: "B".to_string(), email: None, department: None, active: s("1") })
        .expect("valid");
    assert_eq!(u.active, 1);
    assert!(employee_from_update(&EmpUpdate { display_name: String::new(), email: None, department: None, active: s("1") }).is_none());
}

#[test]
fn recent_transactions_energy() {
    let t = recent_tx("a".to_string(), s("b"), "WB".to_string(), "T".to_string(), Some(2500), 1000);
    assert_eq!(t.energy_wh, 1500);
    assert_eq!(t.stop_time.as_deref(), Some("b"));
    let t = recent_tx("a".to_string(), None, "WB".to_string(), "T".to_string(), None, 1000);
    assert_eq!(t.energy_wh, 0);
    let t = recent_tx("a".to_string(), s("b"), "WB".to_string(), "T".to_string(), Some(10), 1000);
    assert_eq!(t.energy_wh, 0);
}

#[test]
fn a_window_gives_one_chip() {
    let s = session(Some("T9"), 0);
    assert!(check_enroll_save(&s, &save("employee")).is_ok());
    let done = consumed_session(s);
    assert_eq!((done.consumed, done.id), (1, 3));
    assert_eq!(bad(check_enroll_save(&done, &save("employee")).err().unwrap()), "Enrollment bereits abgeschlossen.");
}
