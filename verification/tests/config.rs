use easy_occp::config::{
    default_bind, default_data_dir, default_db_file, default_meter_interval_s, default_public_base_url, AuthConfig,
    Config, HttpConfig, OcppConfig, StorageConfig,
};
use easy_occp::error::AppError;

#[test]
fn defaults() {
    assert_eq!(default_meter_interval_s(), 30);
    assert_eq!(default_bind(), "0.0.0.0:8080");
    assert_eq!(default_public_base_url(), "http://localhost:8080");
    assert_eq!(default_data_dir(), std::path::PathBuf::from("data"));
    assert_eq!(default_db_file(), "easy-occp.db");
}

#[test]
fn default_config() {
    let c = Config::default();
    assert_eq!(c.http.bind, "0.0.0.0:8080");
    assert_eq!(c.http.public_base_url, "http://localhost:8080");
    assert_eq!(c.storage.db_file, "easy-occp.db");
    assert_eq!(c.ocpp.meter_interval_s, 30);
    assert!(c.auth.ldap.is_none() && c.auth.oidc.is_none());
    assert_eq!(OcppConfig::default().meter_interval_s, 30);
    assert_eq!(HttpConfig::default().bind, "0.0.0.0:8080");
    assert!(AuthConfig::default().ldap.is_none());
}

#[test]
fn data_dir_and_db_path() {
    let c = Config::default();
    assert_eq!(c.data_dir(), &std::path::PathBuf::from("data"));
    assert_eq!(c.db_path(), std::path::Path::new("data").join("easy-occp.db"));
    let c = Config {
        storage: StorageConfig { data_dir: std::path::PathBuf::from("/var/lib/occp"), db_file: "x.db".to_string() },
        ..Config::default()
    };
    assert_eq!(c.db_path(), std::path::PathBuf::from("/var/lib/occp/x.db"));
}

#[test]
fn error_responses() {
    assert_eq!(AppError::NotFound.response_parts(), (404, "Nicht gefunden".to_string()));
    assert_eq!(AppError::Unauthorized.response_parts(), (401, "Nicht autorisiert".to_string()));
    assert_eq!(AppError::Forbidden.response_parts(), (403, "Verboten".to_string()));
    assert_eq!(
        AppError::bad_request("Name fehlt").response_parts(),
        (400, "Ungültige Eingabe: Name fehlt".to_string())
    );
    assert_eq!(AppError::Conflict("schon da".to_string()).response_parts(), (409, "schon da".to_string()));
}

#[test]
fn internal_errors_hide_details() {
    let e = AppError::Other(anyhow::Error::msg("secret path /etc/x"));
    assert_eq!(e.response_parts(), (500, "Interner Fehler".to_string()));
    let d = AppError::Db(sqlx::Error::RowNotFound);
    assert_eq!(d.response_parts(), (500, "Interner Fehler".to_string()));
}

#[test]
fn db_path_after_trailing_separator() {
    let c = Config {
        storage: StorageConfig { data_dir: std::path::PathBuf::from("/srv/occp/"), db_file: "e.db".to_string() },
        ..Config::default()
    };
    assert_eq!(c.db_path().as_os_str().as_encoded_bytes(), b"/srv/occp/e.db");
    let c = Config {
        storage: StorageConfig { data_dir: std::path::PathBuf::from(""), db_file: "e.db".to_string() },
        ..Config::default()
    };
    assert_eq!(c.db_path().as_os_str().as_encoded_bytes(), b"e.db");
    assert_eq!(default_data_dir().as_os_str().as_encoded_bytes(), b"data");
}
