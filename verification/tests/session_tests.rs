use rusiodb::connections::{ConnectionProfile, ConnectionsFile};
use rusiodb::drivers::{CatalogObject, Driver, ObjectKind};
use rusiodb::screen::{editor_shortcut, shortcut, Command, Key};
use rusiodb::session::{new_tab, ConnState, ConnectionEntry, Effect, Event, Field, PasswordUse, Session};

fn profile(id: u64, name: &str, driver: Driver) -> ConnectionProfile {
    ConnectionProfile {
        id,
        name: name.into(),
        driver,
        path: ":memory:".into(),
        host: String::new(),
        port: String::new(),
        database: String::new(),
        user: String::new(),
        tls: false,
        tls_verify: true,
    }
}

fn connected_entry(id: u64, name: &str) -> ConnectionEntry {
    ConnectionEntry {
        id,
        profile: profile(id, name, Driver::Sqlite),
        state: ConnState::Connected {
            catalog: vec![CatalogObject { schema: None, name: "sample".into(), kind: ObjectKind::Table }],
        },
        catalog_busy: false,
    }
}

fn connecting_entry(id: u64, name: &str, driver: Driver) -> ConnectionEntry {
    ConnectionEntry { id, profile: profile(id, name, driver), state: ConnState::Connecting, catalog_busy: false }
}

#[test]
fn command_enter_runs_sql_instead_of_inserting_a_newline() {
    assert_eq!(editor_shortcut(true, Key::Enter, true, false), Some(Command::Run));
}

#[test]
fn new_query_preserves_existing_sql_and_form_driver_is_independent_of_tabs() {
    let mut app = Session::default();
    let first_title = app.tabs[0].title.clone();
    let effects = app.update(Event::NewQuery);
    assert_eq!(app.tabs[0].title, first_title);
    assert!(matches!(effects.as_slice(), [Effect::OpenEditor(text)] if text.is_empty()));
    assert_eq!(app.selected, 1);
    let _ = app.update(Event::Driver(Driver::Mysql));
    assert_eq!(app.form.port, "3306");
    assert!(app.connections.is_empty());
}

#[test]
fn closing_a_tab_removes_it_and_keeps_a_valid_selection() {
    let mut app = Session::default();
    let _ = app.update(Event::NewQuery);
    let _ = app.update(Event::NewQuery);
    assert_eq!(app.tabs.len(), 3);
    app.selected = 2;
    let _ = app.update(Event::CloseTab(0));
    assert_eq!(app.tabs.len(), 2);
    assert_eq!(app.selected, 1, "debe seguir apuntando a la misma pestaña tras el corrimiento");
}

#[test]
fn closing_the_last_remaining_tab_is_a_no_op() {
    let mut app = Session::default();
    let _ = app.update(Event::CloseTab(0));
    assert_eq!(app.tabs.len(), 1);
}

#[test]
fn editing_a_different_profile_is_allowed_while_one_connection_is_connecting() {
    let mut app = Session::default();
    app.connections.push(connecting_entry(1, "Conectando", Driver::Sqlite));
    let _ = app.update(Event::Field(Field::Name, "Otra".into()));
    assert_eq!(app.form.name, "Otra");
    let _ = app.update(Event::NewQuery);
    assert_eq!(app.tabs.len(), 2);
    let _ = app.update(Event::SelectTab(1));
    assert_eq!(app.selected, 1);
}

#[test]
fn two_tabs_on_different_connections_can_run_simultaneously() {
    let mut app = Session::default();
    app.connections.push(connected_entry(1, "A"));
    app.connections.push(connected_entry(2, "B"));
    app.tabs = vec![new_tab("A".into(), Some(1)), new_tab("B".into(), Some(2))];
    app.tabs[0].running = true;
    app.selected = 1;
    let effects = app.update(Event::Run("SELECT 1".into()));
    assert!(app.tabs[0].running, "la pestaña A debe seguir marcada como en ejecución");
    assert!(app.tabs[1].running, "la pestaña B debe pasar a en ejecución");
    assert!(matches!(
        effects.as_slice(),
        [Effect::Execute { tab: 1, connection: 2, sql }] if sql == "SELECT 1"
    ));
}

#[test]
fn disconnecting_one_connection_does_not_affect_another() {
    let mut app = Session::default();
    app.connections.push(connected_entry(1, "A"));
    app.connections.push(connected_entry(2, "B"));
    app.selected_connection = Some(1);
    let effects = app.update(Event::Disconnect);
    assert!(matches!(app.connections.iter().find(|e| e.id == 1).unwrap().state, ConnState::Disconnected));
    assert!(matches!(app.connections.iter().find(|e| e.id == 2).unwrap().state, ConnState::Connected { .. }));
    assert!(matches!(effects.as_slice(), [Effect::Release(1)]));
    assert_eq!(app.status, "A desconectada.");
}

#[test]
fn new_connection_opens_a_connection_window_without_touching_main_window() {
    let mut app = Session::default();
    let _ = app.update(Event::NewConnection);
    assert!(app.connection_window.is_some());
    assert_eq!(app.main_window, None);
}

#[test]
fn new_connection_twice_reuses_the_existing_connection_window() {
    let mut app = Session::default();
    let _ = app.update(Event::NewConnection);
    let first = app.connection_window;
    let effects = app.update(Event::NewConnection);
    assert_eq!(app.connection_window, first);
    assert!(matches!(effects.as_slice(), [Effect::FocusWindow(w)] if Some(*w) == first));
}

#[test]
fn close_connection_form_clears_dialog_state() {
    let mut app = Session::default();
    let _ = app.update(Event::NewConnection);
    app.editing_profile = Some(9);
    app.form_error = Some("x".into());
    let _ = app.update(Event::CloseConnectionForm);
    assert_eq!(app.connection_window, None);
    assert_eq!(app.editing_profile, None);
    assert!(app.form_error.is_none());
}

#[test]
fn save_profile_closes_the_connection_window() {
    let mut app = Session::default();
    let _ = app.update(Event::NewConnection);
    app.form.name = "Nueva".into();
    let _ = app.update(Event::SaveProfile);
    assert!(app.connection_window.is_none());
    assert_eq!(app.connections.len(), 1);
    assert_eq!(app.connections[0].profile.name, "Nueva");
    assert_eq!(app.next_id, 2);
}

#[test]
fn connected_error_while_watching_sets_form_error_and_keeps_dialog_open() {
    let mut app = Session::default();
    let dialog_id = 7;
    app.connection_window = Some(dialog_id);
    app.editing_profile = Some(1);
    let mut entry = connecting_entry(1, "Falla", Driver::Postgres);
    entry.profile.host = "localhost".into();
    entry.profile.port = "5432".into();
    entry.profile.database = "db".into();
    entry.profile.user = "user".into();
    app.connections.push(entry);
    let _ = app.update(Event::Connected(1, Err("boom".into())));
    assert_eq!(app.form_error.as_deref(), Some("boom"));
    assert_eq!(app.connection_window, Some(dialog_id));
}

#[test]
fn connected_success_while_watching_closes_the_dialog() {
    let mut app = Session::default();
    let dialog_id = 7;
    app.connection_window = Some(dialog_id);
    app.editing_profile = Some(1);
    app.connections.push(connecting_entry(1, "Sqlite", Driver::Sqlite));
    let effects = app.update(Event::Connected(1, Ok(vec![])));
    assert_eq!(app.connection_window, None);
    assert!(app.form_error.is_none());
    assert!(effects.iter().any(|e| matches!(e, Effect::CloseWindow(7))));
}

#[test]
fn window_closed_for_connection_window_clears_dialog_state_without_touching_main_window() {
    let mut app = Session::default();
    let main_id = 1;
    let dialog_id = 2;
    app.main_window = Some(main_id);
    app.connection_window = Some(dialog_id);
    app.editing_profile = Some(7);
    let _ = app.update(Event::WindowClosed(dialog_id));
    assert_eq!(app.connection_window, None);
    assert_eq!(app.editing_profile, None);
    assert_eq!(app.main_window, Some(main_id));
}

#[test]
fn is_main_window_predicate_identifies_only_the_main_window_id() {
    let mut app = Session::default();
    let main_id = 3;
    app.main_window = Some(main_id);
    assert!(app.is_main_window(main_id));
    assert!(!app.is_main_window(4));
}

#[test]
fn default_app_never_touches_the_real_os_keyring() {
    assert!(!Session::default().keyring_enabled);
}

#[test]
fn default_app_never_checks_for_updates() {
    assert!(Session::default().update_available.is_none());
    assert!(!Session::default().updating);
}

#[test]
fn shortcuts_follow_the_menus() {
    assert_eq!(shortcut(Key::F5, false, false), Some(Command::Run));
    assert_eq!(shortcut(Key::F6, false, false), Some(Command::Refresh));
    assert_eq!(shortcut(Key::Character('n'), true, false), Some(Command::NewQuery));
    assert_eq!(shortcut(Key::Character('n'), true, true), Some(Command::NewConnection));
    assert_eq!(shortcut(Key::Character('n'), false, false), None);
    assert_eq!(shortcut(Key::Enter, false, false), None);
    assert_eq!(editor_shortcut(false, Key::F5, false, false), None);
}

#[test]
fn deleting_asks_for_a_confirmation_first() {
    let mut app = Session::default();
    app.connections.push(connected_entry(1, "A"));
    app.connections.push(connected_entry(2, "B"));
    app.selected_connection = Some(1);
    let first = app.update(Event::DeleteConnection);
    assert!(first.is_empty());
    assert_eq!(app.connections.len(), 2);
    assert_eq!(app.pending_delete, Some(1));
    assert_eq!(app.status, "Pulsa Eliminar otra vez para confirmar.");
    let second = app.update(Event::DeleteConnection);
    assert_eq!(app.connections.len(), 1);
    assert_eq!(app.connections[0].id, 2);
    assert_eq!(app.selected_connection, None);
    assert_eq!(app.status, "A eliminada.");
    assert!(matches!(second.as_slice(), [Effect::Release(1)]));
}

#[test]
fn another_event_withdraws_a_pending_delete() {
    let mut app = Session::default();
    app.connections.push(connected_entry(1, "A"));
    app.selected_connection = Some(1);
    let _ = app.update(Event::DeleteConnection);
    let _ = app.update(Event::ToggleTheme);
    assert_eq!(app.pending_delete, None);
    let _ = app.update(Event::DeleteConnection);
    assert_eq!(app.connections.len(), 1);
}

#[test]
fn toggling_a_node_twice_closes_it_again() {
    let mut app = Session::default();
    let _ = app.update(Event::ToggleExpanded("1".into()));
    assert!(app.expanded.iter().any(|k| k == "1"));
    let _ = app.update(Event::ToggleExpanded("1".into()));
    assert!(!app.expanded.iter().any(|k| k == "1"));
}

#[test]
fn a_double_click_on_a_saved_connection_asks_for_its_password_then_connects() {
    let mut app = Session::default();
    app.keyring_enabled = true;
    let mut entry = connecting_entry(4, "Remota", Driver::Postgres);
    entry.state = ConnState::Disconnected;
    app.connections.push(entry);
    let first = app.update(Event::SelectConnection(4, 1000));
    assert!(first.is_empty());
    assert_eq!(app.selected_connection, Some(4));
    let second = app.update(Event::SelectConnection(4, 1200));
    assert!(matches!(second.as_slice(), [Effect::LookupPassword(4, PasswordUse::Connect)]));
    let third = app.update(Event::PasswordLoaded(4, PasswordUse::Connect, Some("pw".into())));
    assert!(matches!(app.connections[0].state, ConnState::Connecting));
    assert!(matches!(third.as_slice(), [Effect::Connect(4, config)] if config.password == "pw"));
}

#[test]
fn starting_with_no_profiles_opens_the_form_and_checks_for_updates() {
    let (app, effects) = Session::load(&ConnectionsFile { next_id: 0, profiles: vec![] }, true);
    assert_eq!(app.next_id, 1);
    assert!(app.keyring_enabled);
    assert!(matches!(
        effects.as_slice(),
        [Effect::OpenMainWindow(1), Effect::OpenConnectionWindow(2), Effect::CheckUpdates]
    ));
}

#[test]
fn starting_with_profiles_lists_them_disconnected() {
    let file = ConnectionsFile { next_id: 5, profiles: vec![profile(4, "Local", Driver::Sqlite)] };
    let (app, effects) = Session::load(&file, true);
    assert_eq!(app.next_id, 5);
    assert_eq!(app.connections.len(), 1);
    assert_eq!(app.connections[0].id, 4);
    assert!(matches!(app.connections[0].state, ConnState::Disconnected));
    assert!(matches!(effects.as_slice(), [Effect::OpenMainWindow(1), Effect::CheckUpdates]));
    assert_eq!(app.connection_window, None);
}

#[test]
fn a_failed_connection_leaves_the_others_alone() {
    let mut app = Session::default();
    app.connections.push(connected_entry(1, "A"));
    app.connections.push(connecting_entry(2, "B", Driver::Postgres));
    let effects = app.update(Event::Connected(2, Err("boom".into())));
    assert!(effects.is_empty());
    assert!(matches!(app.connections[0].state, ConnState::Connected { .. }));
    assert!(matches!(&app.connections[1].state, ConnState::Error(m) if m == "boom"));
    assert_eq!(app.status, "Error de conexión: boom");
}

#[test]
fn a_refreshed_catalog_reaches_only_its_connection() {
    let mut app = Session::default();
    app.connections.push(connected_entry(1, "A"));
    app.connections.push(connected_entry(2, "B"));
    app.selected_connection = Some(2);
    let effects = app.update(Event::Refresh);
    assert!(matches!(effects.as_slice(), [Effect::RefreshCatalog(2)]));
    assert!(app.connections[1].catalog_busy);
    let _ = app.update(Event::CatalogRefreshed(2, Ok(vec![])));
    assert!(!app.connections[1].catalog_busy);
    assert!(matches!(&app.connections[1].state, ConnState::Connected { catalog } if catalog.is_empty()));
    assert!(matches!(&app.connections[0].state, ConnState::Connected { catalog } if catalog.len() == 1));
    assert_eq!(app.status, "Catálogo actualizado.");
}

#[test]
fn connecting_from_the_form_forgets_the_typed_password() {
    let mut app = Session::default();
    app.form.driver = Driver::Postgres;
    app.form.password = "secret".into();
    let effects = app.update(Event::ConnectProfile);
    assert_eq!(app.form.password, "");
    assert!(matches!(effects.last(), Some(Effect::Connect(1, config)) if config.password == "secret"));
    assert!(matches!(app.connections[0].state, ConnState::Connecting));
}

#[test]
fn results_survive_a_catalog_error() {
    let mut app = Session::default();
    app.connections.push(connected_entry(1, "A"));
    app.tabs = vec![new_tab("A".into(), Some(1))];
    app.tabs[0].running = true;
    let result = rusiodb::db::QueryResult { columns: vec![], rows: vec![], affected: 3, truncated: false };
    let _ = app.update(Event::Completed(0, 1, Ok((result, Err("sin permiso".into()), 7))));
    assert!(!app.tabs[0].running);
    assert_eq!(app.tabs[0].result.affected, 3);
    assert_eq!(app.tabs[0].last_elapsed_ms, Some(7));
    assert_eq!(app.status, "3 filas afectadas · 7 ms · No se pudo actualizar el catálogo: sin permiso");
}

#[test]
fn copied_results_are_tab_separated() {
    let mut app = Session::default();
    app.tabs[0].result = rusiodb::db::QueryResult {
        columns: vec!["a".into(), "b".into()],
        rows: vec![vec!["1".into(), "x".into()], vec!["2".into(), "NULL".into()]],
        affected: 0,
        truncated: false,
    };
    let effects = app.update(Event::CopyResults);
    assert!(matches!(effects.as_slice(), [Effect::CopyToClipboard(t)] if t == "a\tb\n1\tx\n2\tNULL"));
}

#[test]
fn every_tab_change_comes_with_its_editor_change() {
    let mut app = Session::default();
    let opened = app.update(Event::NewQuery);
    assert!(matches!(opened.as_slice(), [Effect::OpenEditor(_)]));
    let closed = app.update(Event::CloseTab(0));
    assert!(matches!(closed.as_slice(), [Effect::CloseEditor(0)]));
    assert_eq!(app.tabs.len(), 1);
    assert_eq!(app.tabs[0].title, "Consulta 2");
    let nothing = app.update(Event::CloseTab(0));
    assert!(nothing.is_empty());
}

#[test]
fn new_connections_get_fresh_ids() {
    let mut app = Session::default();
    let _ = app.update(Event::NewConnection);
    app.form.name = "Uno".into();
    let _ = app.update(Event::SaveProfile);
    let _ = app.update(Event::NewConnection);
    app.form.name = "Dos".into();
    let _ = app.update(Event::SaveProfile);
    assert_eq!(app.connections.len(), 2);
    assert_eq!(app.connections[0].id, 1);
    assert_eq!(app.connections[1].id, 2);
    assert_eq!(app.next_id, 3);
}
