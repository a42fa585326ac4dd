use easy_occp::auth::local::try_login;
use easy_occp::db::{bootstrap_plan, hash_password, verify_password, BootstrapAction};
use easy_occp::domain::user::User;
use easy_occp::web::views::auth::session_token;
use easy_occp::web::views::LayoutCtx;

fn user(hash: Option<String>) -> User {
    User {
        id: 1,
        username: "admin".to_string(),
        display_name: "Administrator".to_string(),
        email: None,
        role: "admin".to_string(),
        auth_source: "local".to_string(),
        password_hash: hash,
        external_id: None,
        disabled: 0,
        created_at: "2024-01-01T00:00:00+00:00".to_string(),
    }
}

#[test]
fn hashed_password_verifies() {
    let h = hash_password("admin").expect("hash");
    assert!(h.starts_with("$argon2"));
    assert_eq!(verify_password("admin", &h), Ok(true));
    assert_eq!(verify_password("Admin", &h), Ok(false));
}

#[test]
fn hashes_are_salted() {
    let a = hash_password("same").unwrap();
    let b = hash_password("same").unwrap();
    assert_ne!(a, b);
    assert_eq!(verify_password("same", &b), Ok(true));
}

#[test]
fn verify_rejects_unreadable_hash() {
    let e = verify_password("admin", "not-a-hash").unwrap_err();
    assert!(e.starts_with("argon2-Parse: "), "{e}");
    assert!(e.len() > "argon2-Parse: ".len());
}

#[test]
fn login_outcomes() {
    let h = hash_password("geheim12").unwrap();
    let ok = try_login(Some(user(Some(h.clone()))), "geheim12").expect("no error");
    assert_eq!(ok.map(|u| u.id), Some(1));
    assert!(try_login(Some(user(Some(h))), "falsch").unwrap().is_none());
    assert!(try_login(Some(user(None)), "geheim12").unwrap().is_none());
    assert!(try_login(None, "geheim12").unwrap().is_none());
    let e = try_login(Some(user(Some("garbage".to_string()))), "x").unwrap_err();
    assert!(e.starts_with("argon2-Parse: "));
}

#[test]
fn user_flags() {
    let mut u = user(None);
    assert!(u.is_admin());
    assert!(!u.is_disabled());
    u.role = "user".to_string();
    u.disabled = 2;
    assert!(!u.is_admin());
    assert!(u.is_disabled());
}

#[test]
fn bootstrap_creates_default_admin() {
    match bootstrap_plan(None, None) {
        BootstrapAction::CreateAdmin { password, default_password } => {
            assert_eq!(password, "admin");
            assert!(default_password);
        }
        _ => panic!("expected creation"),
    }
}

#[test]
fn bootstrap_with_reset_password() {
    match bootstrap_plan(None, Some("neuesPasswort123")) {
        BootstrapAction::CreateAdmin { password, default_password } => {
            assert_eq!(password, "neuesPasswort123");
            assert!(!default_password);
        }
        _ => panic!("expected creation"),
    }
    match bootstrap_plan(Some(4), Some("neuesPasswort123")) {
        BootstrapAction::ResetPassword { id, password } => {
            assert_eq!(id, 4);
            assert_eq!(password, "neuesPasswort123");
        }
        _ => panic!("expected reset"),
    }
    assert!(matches!(bootstrap_plan(Some(4), None), BootstrapAction::Nothing));
}

#[test]
fn session_cookie_is_found() {
    assert_eq!(session_token("sid=abc", "sid"), Some("abc".to_string()));
    assert_eq!(session_token("theme=dark; sid=abc; x=1", "sid"), Some("abc".to_string()));
    assert_eq!(session_token("  sid=  ;sid=b", "sid"), Some("".to_string()));
    assert_eq!(session_token("xsid=abc; sidx=1", "sid"), None);
    assert_eq!(session_token("", "sid"), None);
    assert_eq!(session_token("sid=a=b", "sid"), Some("a=b".to_string()));
}

#[test]
fn layout_without_flash() {
    let l = LayoutCtx::new("chips", Some(user(None)));
    assert_eq!(l.active, "chips");
    assert_eq!(l.user.as_ref().map(|u| u.id), Some(1));
    assert!(l.flash.is_none());
    assert!(LayoutCtx::new("x", None).user.is_none());
}

#[test]
fn default_admin_can_log_in() {
    let password = match bootstrap_plan(None, None) {
        BootstrapAction::CreateAdmin { password, .. } => password,
        _ => panic!("expected creation"),
    };
    let hash = hash_password(&password).unwrap();
    let logged_in = try_login(Some(user(Some(hash))), "admin").unwrap();
    assert_eq!(logged_in.map(|u| u.username), Some("admin".to_string()));
}
