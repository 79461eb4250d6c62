use rusiodb::connections::ConnectionProfile;
use rusiodb::db::QueryResult;
use rusiodb::drivers::{CatalogObject, Driver, ObjectKind};
use rusiodb::explorer::{schemas_of, Mark, TreeRow};
use rusiodb::screen::update_banner;
use rusiodb::session::{new_tab, ConnState, ConnectionEntry, Session};
use rusiodb::updater::{UpdateInfo, Version};

fn object(schema: Option<&str>, name: &str, kind: ObjectKind) -> CatalogObject {
    CatalogObject { schema: schema.map(|s| s.to_string()), name: name.into(), kind }
}

fn entry(id: u64, name: &str, driver: Driver, state: ConnState) -> ConnectionEntry {
    ConnectionEntry {
        id,
        profile: ConnectionProfile {
            id,
            name: name.into(),
            driver,
            path: ":memory:".into(),
            host: String::new(),
            port: String::new(),
            database: String::new(),
            user: String::new(),
            tls: false,
            tls_verify: true,
        },
        state,
        catalog_busy: false,
    }
}

#[test]
fn an_empty_explorer_says_so() {
    let rows = Session::default().tree_rows();
    assert_eq!(rows.len(), 1);
    assert!(matches!(rows[0], TreeRow::NoConnections));
}

#[test]
fn schemas_are_sorted_and_listed_once() {
    let catalog = vec![
        object(Some("zeta"), "a", ObjectKind::Table),
        object(Some("alpha"), "b", ObjectKind::View),
        object(None, "c", ObjectKind::Table),
        object(Some("zeta"), "d", ObjectKind::Function),
        object(Some("Beta"), "e", ObjectKind::Table),
    ];
    assert_eq!(schemas_of(&catalog), vec!["Beta", "alpha", "zeta"]);
}

#[test]
fn a_live_sqlite_connection_lists_its_kinds() {
    let mut s = Session::default();
    let catalog = vec![object(None, "v", ObjectKind::View), object(None, "t", ObjectKind::Table)];
    s.connections.push(entry(3, "Local", Driver::Sqlite, ConnState::Connected { catalog }));
    s.expanded = vec!["3".into(), "3/View".into()];
    let rows = s.tree_rows();
    assert_eq!(rows.len(), 4);
    assert!(matches!(rows[0], TreeRow::Connection { entry: 0, mark: Mark::Live, selected: false }));
    assert!(matches!(&rows[1], TreeRow::Folder { kind: ObjectKind::Table, key, expanded: false, depth: 1 } if key == "3/Table"));
    assert!(matches!(&rows[2], TreeRow::Folder { kind: ObjectKind::View, key, expanded: true, depth: 1 } if key == "3/View"));
    assert!(matches!(rows[3], TreeRow::Leaf { entry: 0, object: 0, depth: 2, previewable: true }));
}

#[test]
fn postgres_connections_group_by_schema() {
    let mut s = Session::default();
    let catalog = vec![
        object(Some("public"), "users", ObjectKind::Table),
        object(Some("audit"), "log", ObjectKind::Table),
        object(Some("public"), "f", ObjectKind::Function),
    ];
    s.connections.push(entry(1, "PG", Driver::Postgres, ConnState::Connected { catalog }));
    s.selected_connection = Some(1);
    s.pending_delete = Some(1);
    s.expanded = vec!["1".into(), "1/public".into(), "1/public/Function".into()];
    let rows = s.tree_rows();
    assert!(matches!(rows[0], TreeRow::Connection { entry: 0, mark: Mark::Live, selected: true }));
    assert!(matches!(rows[1], TreeRow::Actions { entry: 0, connected: true, confirm_delete: true }));
    assert!(matches!(&rows[2], TreeRow::Schema { name, key, expanded: false } if name == "audit" && key == "1/audit"));
    assert!(matches!(&rows[3], TreeRow::Schema { name, key, expanded: true } if name == "public" && key == "1/public"));
    assert!(matches!(&rows[4], TreeRow::Folder { kind: ObjectKind::Table, key, expanded: false, depth: 2 } if key == "1/public/Table"));
    assert!(matches!(&rows[5], TreeRow::Folder { kind: ObjectKind::Function, key, expanded: true, depth: 2 } if key == "1/public/Function"));
    assert!(matches!(rows[6], TreeRow::Leaf { entry: 0, object: 2, depth: 3, previewable: false }));
    assert_eq!(rows.len(), 7);
}

#[test]
fn a_failed_connection_shows_why() {
    let mut s = Session::default();
    s.connections.push(entry(1, "A", Driver::Postgres, ConnState::Error("boom".into())));
    s.connections.push(entry(2, "B", Driver::Sqlite, ConnState::Connecting));
    s.expanded = vec!["1".into()];
    let rows = s.tree_rows();
    assert_eq!(rows.len(), 3);
    assert!(matches!(rows[0], TreeRow::Connection { entry: 0, mark: Mark::Failed, selected: false }));
    assert!(matches!(rows[1], TreeRow::Failure { entry: 0 }));
    assert!(matches!(rows[2], TreeRow::Connection { entry: 1, mark: Mark::Connecting, selected: false }));
}

#[test]
fn the_menus_follow_the_selection() {
    let mut s = Session::default();
    let m = s.menu_state();
    assert!(!m.has_selection && !m.disconnect && !m.refresh && !m.run && !m.copy_results);
    s.connections.push(entry(1, "A", Driver::Sqlite, ConnState::Connected { catalog: vec![] }));
    s.selected_connection = Some(1);
    s.tabs = vec![new_tab("Consulta 1".into(), Some(1))];
    s.tabs[0].result = QueryResult { columns: vec!["x".into()], rows: vec![], affected: 0, truncated: false };
    let m = s.menu_state();
    assert!(m.has_selection && m.disconnect && m.refresh && m.run && m.copy_results);
    s.connections[0].catalog_busy = true;
    s.tabs[0].running = true;
    assert!(!s.refresh_enabled());
    assert!(!s.can_run());
    assert!(s.any_connected());
}

#[test]
fn titles_tabs_and_figures() {
    let mut s = Session::default();
    s.connection_window = Some(2);
    assert_eq!(s.title(2), "Nueva conexión");
    s.editing_profile = Some(1);
    assert_eq!(s.title(2), "Editar conexión");
    assert_eq!(s.title(1), "RusioDB");
    s.tabs[0].running = true;
    let chips = s.tab_chips();
    assert_eq!(chips[0].label, "Consulta 1 ⏳");
    assert!(chips[0].selected && !chips[0].closable);
    let stats = s.tab_stats();
    assert_eq!(stats.connection, "Sin conexión");
    assert_eq!(stats.count_caption, "AFECTADAS");
    assert_eq!(stats.count, "0");
    assert_eq!(stats.elapsed, "—");
    s.tabs[0].last_elapsed_ms = Some(12);
    s.tabs[0].result = QueryResult { columns: vec!["a".into()], rows: vec![vec!["1".into()]], affected: 0, truncated: true };
    let stats = s.tab_stats();
    assert_eq!(stats.count_caption, "FILAS");
    assert_eq!(stats.count, "1");
    assert_eq!(stats.elapsed, "12 ms");
    assert!(stats.truncated);
    assert!(s.theme().dark);
}

#[test]
fn the_banner_names_the_new_version() {
    let info = UpdateInfo { version: Version::new(1, 4, 0), download_url: String::new(), notes: String::new() };
    assert_eq!(update_banner(&info), "Nueva versión disponible: 1.4.0");
}
