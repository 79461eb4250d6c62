use rusiodb::connections::{config_from_profile, default_tls_verify, profile_from_config, ConnectionProfile, ConnectionsFile};
use rusiodb::drivers::{Config, Driver};

#[test]
fn a_profile_never_keeps_the_password() {
    let config = Config {
        name: "Mi Postgres".into(),
        driver: Driver::Postgres,
        host: "localhost".into(),
        port: "5432".into(),
        database: "app".into(),
        user: "admin".into(),
        password: "secret".into(),
        ..Config::default()
    };
    let profile = profile_from_config(1, &config);
    assert_eq!(profile.id, 1);
    assert_eq!(profile.name, "Mi Postgres");
    assert_eq!(profile.user, "admin");
    assert!(profile.tls);
    let back = config_from_profile(&profile);
    assert_eq!(back.password, "");
    assert!(back.remember_password);
    assert_eq!(back.host, "localhost");
}

#[test]
fn an_unnamed_form_is_saved_under_its_label() {
    let config = Config { path: "/tmp/a.db".into(), ..Config::default() };
    let profile = profile_from_config(4, &config);
    assert_eq!(profile.name, "SQLite · /tmp/a.db");
}

#[test]
fn profiles_verify_certificates_unless_told_otherwise() {
    assert!(default_tls_verify());
    let file = ConnectionsFile::default();
    assert_eq!(file.next_id, 0);
    assert!(file.profiles.is_empty());
    let p = ConnectionProfile {
        id: 1,
        name: "x".into(),
        driver: Driver::Mysql,
        path: String::new(),
        host: "h".into(),
        port: "3306".into(),
        database: "d".into(),
        user: "u".into(),
        tls: true,
        tls_verify: false,
    };
    assert!(!config_from_profile(&p).tls_verify);
}
