use rusiodb::catalog::sqlite_entry;
use rusiodb::drivers::Driver;
use rusiodb::screen::Theme;
use rusiodb::session::Session;
use rusiodb::updater::response_outcome;

#[test]
fn the_form_shows_what_each_engine_needs() {
    let mut s = Session::default();
    let layout = s.form_layout();
    assert_eq!(layout.title, "Nueva conexión");
    assert!(!layout.server_fields);
    assert!(layout.verify_enabled);
    s.form.driver = Driver::Mongo;
    s.form.tls = false;
    s.editing_profile = Some(3);
    let layout = s.form_layout();
    assert_eq!(layout.title, "Editar conexión");
    assert!(layout.server_fields);
    assert!(!layout.verify_enabled);
}

#[test]
fn the_releases_answer_is_read_by_its_status() {
    assert_eq!(response_outcome(404, "404 Not Found"), Ok(false));
    assert_eq!(response_outcome(200, "200 OK"), Ok(true));
    assert_eq!(response_outcome(503, "503 Service Unavailable"), Err("GitHub respondió 503 Service Unavailable".to_string()));
}

#[test]
fn sqlite_catalog_rows_tell_views_apart() {
    assert!(sqlite_entry("v".into(), "view").is_view);
    assert!(!sqlite_entry("t".into(), "table").is_view);
    assert_eq!(sqlite_entry("t".into(), "table").name, "t");
}

#[test]
fn the_default_look_is_light_and_the_session_starts_dark() {
    assert!(!Theme::default().dark);
    assert!(Session::default().theme().dark);
}
