//! What the main window shows besides the explorer: which menu entries and
//! buttons are enabled, window titles, the tab bar, the figures under the
//! results and the update banner.
use vstd::prelude::*;
use crate::drivers::Driver;
use crate::session::{entry_index, find_entry, ConnState, Session, Tab};
use crate::text::{decimal, decimal_text};
use crate::updater::{version_text, UpdateInfo};

verus! {

/// The menu entries that can be disabled, and whether each is enabled.
pub struct MenuState {
    /// "Copiar resultados": the current tab has a result with columns.
    pub copy_results: bool,
    /// "Editar conexión seleccionada" and "Eliminar conexión": a saved
    /// connection is selected.
    pub has_selection: bool,
    /// "Desconectar": the selected connection is live.
    pub disconnect: bool,
    /// "Actualizar catálogo": live and not already refreshing.
    pub refresh: bool,
    /// "Ejecutar SQL".
    pub run: bool,
}

/// A chip of the tab bar.
pub struct TabChip {
    pub label: String,
    pub selected: bool,
    /// Tabs can be closed while there are more than one.
    pub closable: bool,
}

/// The figures under the results of the current tab.
pub struct TabStats {
    /// The name of the tab's connection, or "Sin conexión".
    pub connection: String,
    /// "FILAS" for a result with columns, "AFECTADAS" otherwise.
    pub count_caption: String,
    /// The rows shown, or the rows affected.
    pub count: String,
    /// "<ms> ms", or "—" before the first run.
    pub elapsed: String,
    pub truncated: bool,
}

/// Whether some saved connection with `id` is live.
pub open spec fn live_with(s: Session, id: u64) -> bool {
    exists|i: int| 0 <= i < s.connections@.len() && #[trigger] s.connections@[i].id == id
        && s.connections@[i].state is Connected
}

/// The saved connection that is selected, if any.
pub open spec fn selected_entry_index(s: Session) -> Option<int> {
    match s.selected_connection {
        Some(id) => if s.has(id) {
            Some(entry_index(s.connections@, id))
        } else {
            None
        },
        None => None,
    }
}

/// The current tab can run: it is not running and its connection is live.
pub open spec fn runnable(s: Session) -> bool {
    let tab = s.tabs@[s.selected as int];
    &&& !tab.running
    &&& match tab.connection_id {
        Some(id) => live_with(s, id),
        None => false,
    }
}

/// The selected connection is live and not refreshing its catalog.
pub open spec fn refreshable(s: Session) -> bool {
    match selected_entry_index(s) {
        Some(i) => s.connections@[i].state is Connected && !s.connections@[i].catalog_busy,
        None => false,
    }
}

/// The title of a window: the form's for the connection window, the
/// program's otherwise.
pub open spec fn window_title(s: Session, window: u64) -> Seq<char> {
    if s.connection_window == Some(window) {
        if s.editing_profile is Some {
            "Editar conexión"@
        } else {
            "Nueva conexión"@
        }
    } else {
        "RusioDB"@
    }
}

/// A tab's label: its title, with an hourglass while it runs.
pub open spec fn tab_label(t: Tab) -> Seq<char> {
    if t.running {
        t.title@ + " ⏳"@
    } else {
        t.title@
    }
}

/// The banner that offers an update.
pub open spec fn banner_text(info: UpdateInfo) -> Seq<char> {
    "Nueva versión disponible: "@ + version_text(info.version)
}

/// The name shown for the connection of the current tab.
pub open spec fn stats_connection(s: Session) -> Seq<char> {
    match s.tabs@[s.selected as int].connection_id {
        Some(id) => if s.has(id) {
            s.entry(id).profile.name@
        } else {
            "Sin conexión"@
        },
        None => "Sin conexión"@,
    }
}

impl Session {
    /// Whether some saved connection with `id` is live.
    fn is_live_connection(&self, id: u64) -> (r: bool)
        ensures
            r == live_with(*self, id),
    {
        let mut i: usize = 0;
        while i < self.connections.len()
            invariant
                i <= self.connections@.len(),
                forall|k: int| 0 <= k < i ==> !(#[trigger] self.connections@[k].id == id
                    && self.connections@[k].state is Connected),
            decreases self.connections@.len() - i,
        {
            if self.connections[i].id == id {
                if let ConnState::Connected { .. } = &self.connections[i].state {
                    return true;
                }
            }
            i = i + 1;
        }
        false
    }

    /// Whether "Ejecutar" is enabled.
    pub fn can_run(&self) -> (r: bool)
        requires
            self.wf(),
        ensures
            r == runnable(*self),
    {
        let tab = &self.tabs[self.selected];
        if tab.running {
            return false;
        }
        match tab.connection_id {
            Some(id) => self.is_live_connection(id),
            None => false,
        }
    }

    /// The index of the selected saved connection, if one is selected.
    fn selected_index(&self) -> (r: Option<usize>)
        ensures
            match r {
                Some(i) => selected_entry_index(*self) == Some(i as int),
                None => selected_entry_index(*self) is None,
            },
    {
        match self.selected_connection {
            Some(id) => {
                let i = find_entry(&self.connections, id);
                if i < self.connections.len() {
                    Some(i)
                } else {
                    None
                }
            },
            None => None,
        }
    }

    /// Whether "Actualizar" is enabled.
    pub fn refresh_enabled(&self) -> (r: bool)
        ensures
            r == refreshable(*self),
    {
        match self.selected_index() {
            Some(i) => {
                let e = &self.connections[i];
                match &e.state {
                    ConnState::Connected { .. } => !e.catalog_busy,
                    _ => false,
                }
            },
            None => false,
        }
    }

    /// Which menu entries are enabled.
    pub fn menu_state(&self) -> (m: MenuState)
        requires
            self.wf(),
        ensures
            m.copy_results == (self.tabs@[self.selected as int].result.columns@.len() > 0),
            m.has_selection == selected_entry_index(*self) is Some,
            m.disconnect == match selected_entry_index(*self) {
                Some(i) => self.connections@[i].state is Connected,
                None => false,
            },
            m.refresh == refreshable(*self),
            m.run == runnable(*self),
    {
        let selected = self.selected_index();
        let disconnect = match selected {
            Some(i) => match &self.connections[i].state {
                ConnState::Connected { .. } => true,
                _ => false,
            },
            None => false,
        };
        MenuState {
            copy_results: self.tabs[self.selected].result.columns.len() > 0,
            has_selection: selected.is_some(),
            disconnect,
            refresh: self.refresh_enabled(),
            run: self.can_run(),
        }
    }

    /// Whether any saved connection is live (the editor shows only then).
    pub fn any_connected(&self) -> (r: bool)
        ensures
            r == exists|i: int| 0 <= i < self.connections@.len() && #[trigger] self.connections@[i].state is Connected,
    {
        let mut i: usize = 0;
        while i < self.connections.len()
            invariant
                i <= self.connections@.len(),
                forall|k: int| 0 <= k < i ==> !(#[trigger] self.connections@[k].state is Connected),
            decreases self.connections@.len() - i,
        {
            if let ConnState::Connected { .. } = &self.connections[i].state {
                return true;
            }
            i = i + 1;
        }
        false
    }

    /// The title of a window.
    pub fn title(&self, window: u64) -> (r: String)
        ensures
            r@ == window_title(*self, window),
    {
        if self.connection_window == Some(window) {
            if self.editing_profile.is_some() {
                String::from_str("Editar conexión")
            } else {
                String::from_str("Nueva conexión")
            }
        } else {
            String::from_str("RusioDB")
        }
    }

    /// The chips of the tab bar, in order.
    pub fn tab_chips(&self) -> (chips: Vec<TabChip>)
        ensures
            chips@.len() == self.tabs@.len(),
            forall|i: int|
                0 <= i < chips@.len() ==> {
                    &&& (#[trigger] chips@[i]).label@ == tab_label(self.tabs@[i])
                    &&& chips@[i].selected == (i == self.selected)
                    &&& chips@[i].closable == (self.tabs@.len() > 1)
                },
    {
        let mut chips: Vec<TabChip> = Vec::new();
        let mut i: usize = 0;
        while i < self.tabs.len()
            invariant
                i <= self.tabs@.len(),
                chips@.len() == i,
                forall|k: int|
                    0 <= k < i ==> {
                        &&& (#[trigger] chips@[k]).label@ == tab_label(self.tabs@[k])
                        &&& chips@[k].selected == (k == self.selected)
                        &&& chips@[k].closable == (self.tabs@.len() > 1)
                    },
            decreases self.tabs@.len() - i,
        {
            let tab = &self.tabs[i];
            let mut label = tab.title.clone();
            if tab.running {
                label.append(" ⏳");
            }
            chips.push(TabChip { label, selected: i == self.selected, closable: self.tabs.len() > 1 });
            i = i + 1;
        }
        chips
    }

    /// The figures under the results of the current tab.
    pub fn tab_stats(&self) -> (st: TabStats)
        requires
            self.wf(),
        ensures
            st.connection@ == stats_connection(*self),
            ({
                let r = self.tabs@[self.selected as int].result;
                if r.columns@.len() == 0 {
                    st.count_caption@ == "AFECTADAS"@ && st.count@ == decimal(r.affected as nat)
                } else {
                    st.count_caption@ == "FILAS"@ && st.count@ == decimal(r.rows@.len())
                }
            }),
            st.elapsed@ == match self.tabs@[self.selected as int].last_elapsed_ms {
                Some(ms) => decimal(ms as nat) + " ms"@,
                None => "—"@,
            },
            st.truncated == self.tabs@[self.selected as int].result.truncated,
    {
        let tab = &self.tabs[self.selected];
        let connection = match tab.connection_id {
            Some(id) => {
                let i = find_entry(&self.connections, id);
                if i < self.connections.len() {
                    self.connections[i].profile.name.clone()
                } else {
                    String::from_str("Sin conexión")
                }
            },
            None => String::from_str("Sin conexión"),
        };
        let r = &tab.result;
        let (count_caption, count) = if r.columns.len() == 0 {
            (String::from_str("AFECTADAS"), decimal_text(r.affected as u64))
        } else {
            (String::from_str("FILAS"), decimal_text(r.rows.len() as u64))
        };
        let elapsed = match tab.last_elapsed_ms {
            Some(ms) => {
                let mut e = decimal_text(ms);
                e.append(" ms");
                e
            },
            None => String::from_str("—"),
        };
        TabStats { connection, count_caption, count, elapsed, truncated: r.truncated }
    }
}

/// The text of the banner that offers an update.
pub fn update_banner(info: &UpdateInfo) -> (r: String)
    ensures
        r@ == banner_text(*info),
{
    let mut r = String::from_str("Nueva versión disponible: ");
    let v = info.version.to_text();
    r.append(v.as_str());
    r
}


/// The look of the windows: the dark palette or the light one.
#[derive(Debug, Clone, Copy, PartialEq, Eq, Structural)]
pub struct Theme {
    pub dark: bool,
}

impl Default for Theme {
    fn default() -> (t: Self)
        ensures
            !t.dark,
    {
        Theme { dark: false }
    }
}

/// A key the shortcuts react to.
#[derive(Debug, Clone, Copy, PartialEq, Eq, Structural)]
pub enum Key {
    F5,
    F6,
    Enter,
    Character(char),
    Other,
}

/// What a keyboard shortcut asks for.
#[derive(Debug, Clone, Copy, PartialEq, Eq, Structural)]
pub enum Command {
    Run,
    Refresh,
    NewConnection,
    NewQuery,
}

/// The shortcuts: F5 and Ctrl+Enter run, F6 refreshes the catalog, Ctrl+N
/// opens a query tab and Ctrl+Shift+N the connection form (`command` is Ctrl,
/// or Cmd on macOS).
pub open spec fn shortcut_of(key: Key, command: bool, shift: bool) -> Option<Command> {
    match key {
        Key::F5 => Some(Command::Run),
        Key::F6 => Some(Command::Refresh),
        Key::Enter => if command {
            Some(Command::Run)
        } else {
            None
        },
        Key::Character(c) => if c == 'n' && command {
            if shift {
                Some(Command::NewConnection)
            } else {
                Some(Command::NewQuery)
            }
        } else {
            None
        },
        Key::Other => None,
    }
}

/// The shortcut a key press makes, if any.
pub fn shortcut(key: Key, command: bool, shift: bool) -> (r: Option<Command>)
    ensures
        r == shortcut_of(key, command, shift),
{
    match key {
        Key::F5 => Some(Command::Run),
        Key::F6 => Some(Command::Refresh),
        Key::Enter => if command {
            Some(Command::Run)
        } else {
            None
        },
        Key::Character(c) => if c == 'n' && command {
            if shift {
                Some(Command::NewConnection)
            } else {
                Some(Command::NewQuery)
            }
        } else {
            None
        },
        Key::Other => None,
    }
}

/// What a key press in the SQL editor does before the editor's own keys: a
/// shortcut where the editor has the focus (so Ctrl+Enter runs instead of
/// breaking the line); `None` leaves the key to the editor.
pub fn editor_shortcut(focused: bool, key: Key, command: bool, shift: bool) -> (r: Option<Command>)
    ensures
        r == if focused {
            shortcut_of(key, command, shift)
        } else {
            None
        },
{
    if focused {
        shortcut(key, command, shift)
    } else {
        None
    }
}

impl Session {
    /// The look of every window.
    pub fn theme(&self) -> (t: Theme)
        ensures
            t.dark == self.dark,
    {
        Theme { dark: self.dark }
    }

    /// Whether `id` is the main window.
    pub fn is_main_window(&self, id: u64) -> (r: bool)
        ensures
            r == (self.main_window == Some(id)),
    {
        self.main_window == Some(id)
    }
}


/// How the connection form is laid out.
pub struct FormLayout {
    /// "Editar conexión" or "Nueva conexión".
    pub title: String,
    /// Server, port, database, user, password and the TLS boxes: every
    /// engine but SQLite, which asks for a path instead.
    pub server_fields: bool,
    /// "Verificar certificado" can be changed only with TLS on.
    pub verify_enabled: bool,
}

impl Session {
    /// How the connection form is laid out.
    pub fn form_layout(&self) -> (f: FormLayout)
        ensures
            f.title@ == if self.editing_profile is Some {
                "Editar conexión"@
            } else {
                "Nueva conexión"@
            },
            f.server_fields == (self.form.driver != Driver::Sqlite),
            f.verify_enabled == self.form.tls,
    {
        let title = if self.editing_profile.is_some() {
            String::from_str("Editar conexión")
        } else {
            String::from_str("Nueva conexión")
        };
        FormLayout { title, server_fields: self.form.driver != Driver::Sqlite, verify_enabled: self.form.tls }
    }
}

} // verus!
