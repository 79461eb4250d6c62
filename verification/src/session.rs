//! The desktop session: saved connections and their state, query tabs, the
//! connection form and its window, and the update banner. `Session::update`
//! takes one event and answers with the effects the shell must carry out
//! (open a window, connect, run a query, write the profiles file...); the
//! shell reports back with further events.
use vstd::prelude::*;
use crate::connections::{
    config_from_profile, copy_profile, profile_from_config, saved_as, saved_name,
    ConnectionProfile, ConnectionsFile,
};
use crate::db::QueryResult;
use crate::drivers::{
    copy_config, default_port, object_label, object_preview, sample_text, CatalogObject, Config,
    Driver,
};
use crate::text::{decimal, decimal_text};
use crate::updater::{version_text, UpdateInfo};

verus! {

/// Where a saved connection stands.
pub enum ConnState {
    Disconnected,
    Connecting,
    Connected { catalog: Vec<CatalogObject> },
    Error(String),
}

/// A saved connection and its live state.
pub struct ConnectionEntry {
    pub id: u64,
    pub profile: ConnectionProfile,
    pub state: ConnState,
    /// A catalog refresh is under way.
    pub catalog_busy: bool,
}

/// A query tab. Its editor's text lives with the shell.
pub struct Tab {
    pub title: String,
    pub result: QueryResult,
    pub connection_id: Option<u64>,
    pub running: bool,
    pub last_elapsed_ms: Option<u64>,
}

/// A field of the connection form.
#[derive(Debug, Clone, Copy, PartialEq, Eq, Structural)]
pub enum Field {
    Name,
    Path,
    Host,
    Port,
    Database,
    User,
    Password,
}

/// Why the shell was asked to read a saved password.
#[derive(Debug, Clone, Copy, PartialEq, Eq, Structural)]
pub enum PasswordUse {
    /// To fill the form of a connection being edited.
    Edit,
    /// To connect a saved connection (double click in the tree).
    Connect,
}

/// What the shell must carry out after an event, in order.
pub enum Effect {
    /// Open the connection form's window, known from now on by this id.
    OpenConnectionWindow(u64),
    /// Open the main window, known from now on by this id.
    OpenMainWindow(u64),
    FocusWindow(u64),
    CloseWindow(u64),
    DragWindow(u64),
    MinimizeWindow(u64),
    ToggleMaximizeWindow(u64),
    /// Store a connection's password in the system's credential store.
    SavePassword(u64, String),
    /// Remove a connection's password from the credential store.
    DeletePassword(u64),
    /// Read a connection's password from the credential store and report it
    /// with `Event::PasswordLoaded`.
    LookupPassword(u64, PasswordUse),
    /// Write the profiles file.
    Persist(ConnectionsFile),
    /// Open a connection and read its catalog; report with `Event::Connected`.
    Connect(u64, Config),
    /// Drop the open connection of this id.
    Release(u64),
    /// Read the catalog again; report with `Event::CatalogRefreshed`.
    RefreshCatalog(u64),
    /// Add an editor with this text for the tab just added at the end.
    OpenEditor(String),
    /// Remove the editor of the tab at this index.
    CloseEditor(usize),
    /// Run `sql` on a connection for the tab at `tab`; report with
    /// `Event::Completed`.
    Execute { tab: usize, connection: u64, sql: String },
    CopyToClipboard(String),
    CheckUpdates,
    DownloadUpdate(String),
    /// Replace the running program with the downloaded update.
    ApplyUpdate,
    /// Start the program again.
    Restart,
    Exit,
}

/// What a query run gives back: the result, the catalog read after it, and
/// the time it took.
pub type Executed = Result<(QueryResult, Result<Vec<CatalogObject>, String>, u64), String>;

/// What happens in the session.
pub enum Event {
    Noop,
    Driver(Driver),
    Field(Field, String),
    Tls(bool),
    TlsVerify(bool),
    RememberPassword(bool),
    NewConnection,
    EditConnection(u64),
    CloseConnectionForm,
    SaveProfile,
    ConnectProfile,
    Connected(u64, Result<Vec<CatalogObject>, String>),
    /// A click on a connection in the tree, at a time in milliseconds.
    SelectConnection(u64, u64),
    PasswordLoaded(u64, PasswordUse, Option<String>),
    ToggleExpanded(String),
    Disconnect,
    DeleteConnection,
    Refresh,
    CatalogRefreshed(u64, Result<Vec<CatalogObject>, String>),
    NewQuery,
    SelectTab(usize),
    CloseTab(usize),
    /// An action on the editor (typing, paste, select all, copy), which the
    /// shell carries out itself.
    EditorCommand,
    /// Run the current tab, whose editor holds this text.
    Run(String),
    Preview(u64, CatalogObject),
    Completed(usize, u64, Executed),
    CopyResults,
    ToggleExplorer,
    ToggleTheme,
    About,
    CheckForUpdates,
    UpdateChecked(Result<Option<UpdateInfo>, String>),
    InstallUpdate,
    UpdateDownloaded(Result<(), String>),
    UpdateApplied(Result<(), String>),
    DismissUpdateBanner,
    Exit,
    WindowClosed(u64),
    /// A press on a window's title bar, at a time in milliseconds.
    TitleBarPressed(u64, u64),
    Minimize(u64),
    ToggleMaximize(u64),
}

/// Two clicks this close together, in milliseconds, make a double click.
pub const DOUBLE_CLICK_MS: u64 = 400;

/// The whole state of the desktop session.
pub struct Session {
    pub connections: Vec<ConnectionEntry>,
    pub next_id: u64,
    /// Whether there is a profiles file to write.
    pub persist: bool,
    /// Whether the system's credential store may be used.
    pub keyring_enabled: bool,
    /// The id the next window gets.
    pub next_window: u64,
    pub main_window: Option<u64>,
    pub connection_window: Option<u64>,
    pub main_maximized: bool,
    pub title_last_click: Option<u64>,
    pub title_last_click_at: Option<u64>,
    pub form_error: Option<String>,
    pub selected_connection: Option<u64>,
    /// The tree nodes shown open (a set: each key at most once matters).
    pub expanded: Vec<String>,
    pub pending_delete: Option<u64>,
    pub last_click: Option<u64>,
    pub last_click_at: Option<u64>,
    pub form: Config,
    pub editing_profile: Option<u64>,
    pub tabs: Vec<Tab>,
    pub selected: usize,
    pub status: String,
    pub show_explorer: bool,
    pub dark: bool,
    pub about: bool,
    pub update_available: Option<UpdateInfo>,
    pub updating: bool,
}

/// The index of the first connection with `id`, or the number of connections.
pub open spec fn entry_index(entries: Seq<ConnectionEntry>, id: u64) -> int
    decreases entries.len(),
{
    if entries.len() == 0 {
        0
    } else if entries[0].id == id {
        0
    } else {
        1 + entry_index(entries.drop_first(), id)
    }
}

pub open spec fn is_connected(s: ConnState) -> bool {
    s is Connected
}

/// The title of the tab that would be added to `count` tabs: `"<title> <count + 1>"`.
pub open spec fn tab_title(title: Seq<char>, count: nat) -> Seq<char> {
    title + " "@ + decimal(count + 1)
}

impl Session {
    /// The tabs are never empty and one of them is selected.
    pub open spec fn wf(&self) -> bool {
        &&& self.tabs@.len() > 0
        &&& self.selected < self.tabs@.len()
    }

    /// Whether a connection with `id` is saved.
    pub open spec fn has(&self, id: u64) -> bool {
        entry_index(self.connections@, id) < self.connections@.len()
    }

    /// The saved connection with `id` (meaningful where `has(id)`).
    pub open spec fn entry(&self, id: u64) -> ConnectionEntry {
        self.connections@[entry_index(self.connections@, id)]
    }
}

pub proof fn lemma_entry_index_bounds(entries: Seq<ConnectionEntry>, id: u64)
    ensures
        0 <= entry_index(entries, id) <= entries.len(),
        entry_index(entries, id) < entries.len() ==> entries[entry_index(entries, id)].id == id,
        forall|k: int| 0 <= k < entry_index(entries, id) ==> #[trigger] entries[k].id != id,
    decreases entries.len(),
{
    if entries.len() > 0 && entries[0].id != id {
        lemma_entry_index_bounds(entries.drop_first(), id);
        assert forall|k: int| 0 <= k < entry_index(entries, id) implies #[trigger] entries[k].id
            != id by {
            if k > 0 {
                assert(entries[k] == entries.drop_first()[k - 1]);
            }
        }
    }
}

/// Finds the connection with `id`.
pub fn find_entry(entries: &Vec<ConnectionEntry>, id: u64) -> (i: usize)
    ensures
        i == entry_index(entries@, id),
        i <= entries@.len(),
        i < entries@.len() ==> entries@[i as int].id == id,
{
    proof {
        lemma_entry_index_bounds(entries@, id);
    }
    let mut i: usize = 0;
    while i < entries.len()
        invariant
            i <= entries@.len(),
            forall|k: int| 0 <= k < i ==> #[trigger] entries@[k].id != id,
            0 <= entry_index(entries@, id) <= entries@.len(),
            entry_index(entries@, id) < entries@.len() ==> entries@[entry_index(entries@, id)].id
                == id,
            forall|k: int| 0 <= k < entry_index(entries@, id) ==> #[trigger] entries@[k].id != id,
        decreases entries.len() - i,
    {
        if entries[i].id == id {
            return i;
        }
        i = i + 1;
    }
    i
}

/// A new tab: no result, not running.
pub fn new_tab(title: String, connection_id: Option<u64>) -> (t: Tab)
    ensures
        t.title == title,
        t.result.is_empty_result(),
        t.connection_id == connection_id,
        !t.running,
        t.last_elapsed_ms is None,
{
    Tab { title, result: QueryResult::default(), connection_id, running: false, last_elapsed_ms: None }
}

/// `"<title> <count + 1>"`.
pub fn numbered_title(title: &str, count: usize) -> (r: String)
    requires
        count < usize::MAX,
    ensures
        r@ == tab_title(title@, count as nat),
{
    let mut r = String::from_str(title);
    r.append(" ");
    let n = decimal_text((count + 1) as u64);
    r.append(n.as_str());
    r
}


/// The window id after `w`.
pub open spec fn next_window_id(w: u64) -> u64 {
    if w < u64::MAX {
        (w + 1) as u64
    } else {
        0
    }
}

impl Default for Session {
    /// A session with nothing saved and no file or credential store behind
    /// it: one empty query tab, the dark theme, the explorer shown.
    fn default() -> (s: Self)
        ensures
            s.connections@.len() == 0,
            s.next_id == 1,
            !s.persist,
            !s.keyring_enabled,
            s.next_window == 1,
            s.main_window is None,
            s.connection_window is None,
            !s.main_maximized,
            s.title_last_click is None,
            s.title_last_click_at is None,
            s.form_error is None,
            s.selected_connection is None,
            s.expanded@.len() == 0,
            s.pending_delete is None,
            s.last_click is None,
            s.last_click_at is None,
            fresh_form(s.form),
            s.editing_profile is None,
            s.tabs@.len() == 1,
            s.tabs@[0].title@ == tab_title("Consulta"@, 0),
            s.tabs@[0].connection_id is None,
            !s.tabs@[0].running,
            s.tabs@[0].result.is_empty_result(),
            s.selected == 0,
            s.status@ == "Crea o selecciona una conexión para comenzar."@,
            s.show_explorer,
            s.dark,
            !s.about,
            s.update_available is None,
            !s.updating,
            s.wf(),
    {
        let mut tabs: Vec<Tab> = Vec::new();
        tabs.push(new_tab(numbered_title("Consulta", 0), None));
        Session {
            connections: Vec::new(),
            next_id: 1,
            persist: false,
            keyring_enabled: false,
            next_window: 1,
            main_window: None,
            connection_window: None,
            main_maximized: false,
            title_last_click: None,
            title_last_click_at: None,
            form_error: None,
            selected_connection: None,
            expanded: Vec::new(),
            pending_delete: None,
            last_click: None,
            last_click_at: None,
            form: Config::default(),
            editing_profile: None,
            tabs,
            selected: 0,
            status: String::from_str("Crea o selecciona una conexión para comenzar."),
            show_explorer: true,
            dark: true,
            about: false,
            update_available: None,
            updating: false,
        }
    }
}

/// Each saved profile as a disconnected entry, in order.
pub open spec fn entries_of(entries: Seq<ConnectionEntry>, profiles: Seq<ConnectionProfile>) -> bool {
    &&& entries.len() == profiles.len()
    &&& forall|i: int|
        0 <= i < entries.len() ==> {
            &&& (#[trigger] entries[i]).id == profiles[i].id
            &&& entries[i].profile == profiles[i]
            &&& entries[i].state is Disconnected
            &&& !entries[i].catalog_busy
        }
}

/// The session a start finds: the profiles of `file` loaded, disconnected.
pub open spec fn started(s: Session, file: ConnectionsFile, persist: bool) -> bool {
    &&& entries_of(s.connections@, file.profiles@)
    &&& s.next_id == if file.next_id < 1 { 1 } else { file.next_id }
    &&& s.persist == persist
    &&& s.keyring_enabled
    &&& s.main_window == Some(1u64)
    &&& s.selected_connection is None
    &&& s.editing_profile is None
    &&& s.form_error is None
    &&& s.pending_delete is None
    &&& fresh_form(s.form)
    &&& s.tabs@.len() == 1
    &&& s.tabs@[0].title@ == tab_title("Consulta"@, 0)
    &&& s.tabs@[0].connection_id is None
    &&& !s.tabs@[0].running
    &&& s.tabs@[0].result.is_empty_result()
    &&& s.selected == 0
    &&& s.expanded@.len() == 0
    &&& s.last_click is None
    &&& s.last_click_at is None
    &&& s.title_last_click is None
    &&& s.title_last_click_at is None
    &&& !s.main_maximized
    &&& s.status@ == "Crea o selecciona una conexión para comenzar."@
    &&& s.dark
    &&& s.show_explorer
    &&& !s.about
    &&& s.update_available is None
    &&& !s.updating
}

impl Session {
    /// Starts the session from the profiles file (`persist`: whether there
    /// is a file to write back): every profile disconnected, the main window
    /// opened, the connection form's window too where nothing is saved yet,
    /// and a check for updates.
    pub fn load(file: &ConnectionsFile, persist: bool) -> (r: (Session, Vec<Effect>))
        ensures
            started(r.0, *file, persist),
            r.0.wf(),
            file.profiles@.len() == 0 ==> {
                &&& r.0.connection_window == Some(2u64)
                &&& r.0.next_window == 3
                &&& r.1@ == seq![Effect::OpenMainWindow(1), Effect::OpenConnectionWindow(2), Effect::CheckUpdates]
            },
            file.profiles@.len() > 0 ==> {
                &&& r.0.connection_window is None
                &&& r.0.next_window == 2
                &&& r.1@ == seq![Effect::OpenMainWindow(1), Effect::CheckUpdates]
            },
    {
        let mut connections: Vec<ConnectionEntry> = Vec::new();
        let mut i: usize = 0;
        while i < file.profiles.len()
            invariant
                i <= file.profiles@.len(),
                connections@.len() == i,
                forall|j: int|
                    0 <= j < i ==> {
                        &&& (#[trigger] connections@[j]).id == file.profiles@[j].id
                        &&& connections@[j].profile == file.profiles@[j]
                        &&& connections@[j].state is Disconnected
                        &&& !connections@[j].catalog_busy
                    },
            decreases file.profiles@.len() - i,
        {
            let profile = copy_profile(&file.profiles[i]);
            connections.push(ConnectionEntry { id: profile.id, profile, state: ConnState::Disconnected, catalog_busy: false });
            i = i + 1;
        }
        let open_form = connections.len() == 0;
        let mut s = Session::default();
        s.connections = connections;
        s.next_id = if file.next_id < 1 { 1 } else { file.next_id };
        s.persist = persist;
        s.keyring_enabled = true;
        let main = s.take_window_id();
        s.main_window = Some(main);
        let mut effects = one(Effect::OpenMainWindow(main));
        if open_form {
            let mut opened = s.open_connection_window();
            effects.append(&mut opened);
        }
        effects.push(Effect::CheckUpdates);
        (s, effects)
    }
}

impl Session {
    fn take_window_id(&mut self) -> (w: u64)
        ensures
            w == old(self).next_window,
            *final(self) == (Session { next_window: next_window_id(old(self).next_window), ..*old(self) }),
    {
        let w = self.next_window;
        self.next_window = if w < u64::MAX {
            w + 1
        } else {
            0
        };
        w
    }

    /// What opening the connection form's window does: focus it if it is
    /// open, open it otherwise.
    pub open spec fn opened_form_window(old: Session, new: Session, effects: Seq<Effect>) -> bool {
        match old.connection_window {
            Some(w) => new == old && effects == seq![Effect::FocusWindow(w)],
            None => {
                &&& new == (Session {
                    connection_window: Some(old.next_window),
                    next_window: next_window_id(old.next_window),
                    ..old
                })
                &&& effects == seq![Effect::OpenConnectionWindow(old.next_window)]
            },
        }
    }

    fn open_connection_window(&mut self) -> (effects: Vec<Effect>)
        ensures
            Session::opened_form_window(*old(self), *final(self), effects@),
    {
        let mut effects: Vec<Effect> = Vec::new();
        match self.connection_window {
            Some(w) => {
                effects.push(Effect::FocusWindow(w));
            },
            None => {
                let w = self.take_window_id();
                self.connection_window = Some(w);
                effects.push(Effect::OpenConnectionWindow(w));
            },
        }
        effects
    }
}


/// The selection after closing tab `index` of `count` (`count > 1`): the
/// same tab where it moved down by one, the last tab where it fell off the end.
pub open spec fn selection_after_close(selected: usize, index: usize, count: usize) -> usize {
    let remaining = (count - 1) as usize;
    if selected > index || selected >= remaining {
        let lowered: int = if selected > 0 { selected - 1 } else { 0 };
        if lowered <= remaining - 1 {
            lowered as usize
        } else {
            (remaining - 1) as usize
        }
    } else {
        selected
    }
}

impl Session {
    /// Adds a tab titled `"<title> <n>"` bound to `connection_id`, selects it,
    /// and asks for its editor with `sql`.
    pub open spec fn added_tab(
        old: Session,
        new: Session,
        effects: Seq<Effect>,
        title: Seq<char>,
        sql: Seq<char>,
        connection_id: Option<u64>,
    ) -> bool {
        &&& new.tabs@.len() == old.tabs@.len() + 1
        &&& new.tabs@.drop_last() == old.tabs@
        &&& new.tabs@.last().title@ == tab_title(title, old.tabs@.len())
        &&& new.tabs@.last().connection_id == connection_id
        &&& new.tabs@.last().result.is_empty_result()
        &&& !new.tabs@.last().running
        &&& new.tabs@.last().last_elapsed_ms is None
        &&& new.selected == old.tabs@.len()
        &&& new == (Session { tabs: new.tabs, selected: new.selected, ..old })
        &&& effects.len() == 1
        &&& effects[0] matches Effect::OpenEditor(t) && t@ == sql
    }

    fn add_tab(&mut self, title: &str, sql: String, connection_id: Option<u64>) -> (effects: Vec<Effect>)
        requires
            old(self).tabs@.len() + 1 < usize::MAX,
        ensures
            Session::added_tab(*old(self), *final(self), effects@, title@, sql@, connection_id),
    {
        let t = numbered_title(title, self.tabs.len());
        self.tabs.push(new_tab(t, connection_id));
        assert(self.tabs@.drop_last() =~= old(self).tabs@);
        self.selected = self.tabs.len() - 1;
        let mut effects: Vec<Effect> = Vec::new();
        effects.push(Effect::OpenEditor(sql));
        effects
    }

    /// Selecting an existing tab; any other index changes nothing.
    pub open spec fn selected_tab(old: Session, new: Session, index: usize) -> bool {
        if index < old.tabs@.len() {
            new == (Session { selected: index, ..old })
        } else {
            new == old
        }
    }

    fn select_tab(&mut self, index: usize)
        ensures
            Session::selected_tab(*old(self), *final(self), index),
    {
        if index < self.tabs.len() {
            self.selected = index;
        }
    }

    /// Closing a tab, unless it is the only one or there is no such tab.
    pub open spec fn closed_tab(old: Session, new: Session, effects: Seq<Effect>, index: usize) -> bool {
        if old.tabs@.len() > 1 && index < old.tabs@.len() {
            &&& new.tabs@ == old.tabs@.remove(index as int)
            &&& new.selected == selection_after_close(old.selected, index, old.tabs@.len() as usize)
            &&& new == (Session { tabs: new.tabs, selected: new.selected, ..old })
            &&& effects == seq![Effect::CloseEditor(index)]
        } else {
            new == old && effects.len() == 0
        }
    }

    fn close_tab(&mut self, index: usize) -> (effects: Vec<Effect>)
        ensures
            Session::closed_tab(*old(self), *final(self), effects@, index),
    {
        let mut effects: Vec<Effect> = Vec::new();
        if self.tabs.len() > 1 && index < self.tabs.len() {
            self.tabs.remove(index);
            let remaining = self.tabs.len();
            if self.selected > index || self.selected >= remaining {
                let lowered = if self.selected > 0 {
                    self.selected - 1
                } else {
                    0
                };
                self.selected = if lowered <= remaining - 1 {
                    lowered
                } else {
                    remaining - 1
                };
            }
            effects.push(Effect::CloseEditor(index));
        }
        effects
    }
}


/// The tree nodes shown open.
pub open spec fn open_keys(v: Seq<String>) -> Set<Seq<char>> {
    Set::new(|k: Seq<char>| exists|i: int| 0 <= i < v.len() && #[trigger] v[i]@ == k)
}

/// The tree key of a connection's node: its id in decimal.
pub open spec fn node_key(id: u64) -> Seq<char> {
    decimal(id as nat)
}

pub(crate) fn contains_key(v: &Vec<String>, key: &String) -> (r: bool)
    ensures
        r == open_keys(v@).contains(key@),
{
    let mut i: usize = 0;
    while i < v.len()
        invariant
            i <= v.len(),
            forall|k: int| 0 <= k < i ==> #[trigger] v@[k]@ != key@,
        decreases v.len() - i,
    {
        if v[i] == *key {
            assert(open_keys(v@).contains(key@)) by {
                assert(v@[i as int]@ == key@);
            }
            return true;
        }
        i = i + 1;
    }
    false
}

fn without_key(v: &Vec<String>, key: &String) -> (r: Vec<String>)
    ensures
        open_keys(r@) == open_keys(v@).remove(key@),
{
    let mut r: Vec<String> = Vec::new();
    let mut i: usize = 0;
    while i < v.len()
        invariant
            i <= v.len(),
            forall|a: int| 0 <= a < r@.len() ==> #[trigger] r@[a]@ != key@,
            forall|a: int| 0 <= a < r@.len() ==> exists|b: int| 0 <= b < i && #[trigger] v@[b]@ == (#[trigger] r@[a])@,
            forall|b: int| 0 <= b < i && #[trigger] v@[b]@ != key@ ==> exists|a: int| 0 <= a < r@.len() && (#[trigger] r@[a])@ == v@[b]@,
        decreases v.len() - i,
    {
        if v[i] != *key {
            let ghost before = r@;
            r.push(v[i].clone());
            assert(r@[r@.len() - 1]@ == v@[i as int]@);
            assert forall|a: int| 0 <= a < r@.len() implies exists|b: int| 0 <= b < i + 1 && #[trigger] v@[b]@ == (#[trigger] r@[a])@ by {
                if a < before.len() {
                    assert(r@[a] == before[a]);
                } else {
                    assert(v@[i as int]@ == r@[a]@);
                }
            }
            assert forall|b: int| 0 <= b < i + 1 && #[trigger] v@[b]@ != key@ implies exists|a: int| 0 <= a < r@.len() && (#[trigger] r@[a])@ == v@[b]@ by {
                if b < i {
                    let a = choose|a: int| 0 <= a < before.len() && (#[trigger] before[a])@ == v@[b]@;
                    assert(r@[a] == before[a]);
                } else {
                    assert(r@[r@.len() - 1]@ == v@[b]@);
                }
            }
        }
        i = i + 1;
    }
    assert forall|k: Seq<char>| #[trigger] open_keys(r@).contains(k) <==> open_keys(v@).remove(key@).contains(k) by {
        if open_keys(r@).contains(k) {
            let a = choose|a: int| 0 <= a < r@.len() && #[trigger] r@[a]@ == k;
            let b = choose|b: int| 0 <= b < v@.len() && #[trigger] v@[b]@ == (#[trigger] r@[a])@;
            assert(open_keys(v@).contains(k));
        }
        if open_keys(v@).remove(key@).contains(k) {
            let b = choose|b: int| 0 <= b < v@.len() && #[trigger] v@[b]@ == k;
            let a = choose|a: int| 0 <= a < r@.len() && (#[trigger] r@[a])@ == v@[b]@;
            assert(open_keys(r@).contains(k));
        }
    }
    assert(open_keys(r@) =~= open_keys(v@).remove(key@));
    r
}

fn with_key(v: &mut Vec<String>, key: String)
    ensures
        open_keys(final(v)@) == open_keys(old(v)@).insert(key@),
{
    if !contains_key(v, &key) {
        let ghost before = v@;
        let ghost k0 = key@;
        v.push(key);
        assert forall|k: Seq<char>| #[trigger] open_keys(v@).contains(k) <==> open_keys(before).insert(k0).contains(k) by {
            if open_keys(v@).contains(k) {
                let a = choose|a: int| 0 <= a < v@.len() && #[trigger] v@[a]@ == k;
                if a < before.len() {
                    assert(v@[a] == before[a]);
                }
            }
            if open_keys(before).contains(k) {
                let a = choose|a: int| 0 <= a < before.len() && #[trigger] before[a]@ == k;
                assert(v@[a] == before[a]);
            }
            if k == k0 {
                assert(v@[before.len() as int]@ == k0);
            }
        }
        assert(open_keys(v@) =~= open_keys(before).insert(k0));
    } else {
        assert(open_keys(v@) =~= open_keys(v@).insert(key@));
    }
}

impl Session {
    /// Opens or closes a tree node.
    pub open spec fn toggled(old: Session, new: Session, key: Seq<char>) -> bool {
        &&& open_keys(new.expanded@) == if open_keys(old.expanded@).contains(key) {
            open_keys(old.expanded@).remove(key)
        } else {
            open_keys(old.expanded@).insert(key)
        }
        &&& new == (Session { expanded: new.expanded, ..old })
    }

    fn toggle_expanded(&mut self, key: String)
        ensures
            Session::toggled(*old(self), *final(self), key@),
    {
        if contains_key(&self.expanded, &key) {
            self.expanded = without_key(&self.expanded, &key);
        } else {
            with_key(&mut self.expanded, key);
        }
    }
}


/// The credential-store effect that keeping the form's password asks for:
/// store it when it is to be remembered and not empty, remove it otherwise;
/// nothing when the store is not in use.
pub open spec fn password_sync(keyring: bool, remember: bool, id: u64, password: String) -> Seq<Effect> {
    if !keyring {
        seq![]
    } else if remember && password@.len() > 0 {
        seq![Effect::SavePassword(id, password)]
    } else {
        seq![Effect::DeletePassword(id)]
    }
}

/// The profiles file holding these connections' profiles and this next id.
pub open spec fn file_of(f: ConnectionsFile, next_id: u64, connections: Seq<ConnectionEntry>) -> bool {
    &&& f.next_id == next_id
    &&& f.profiles@ == connections.map_values(|e: ConnectionEntry| e.profile)
}

/// Writing the profiles file, where there is one.
pub open spec fn persist_effects(
    persist: bool,
    next_id: u64,
    connections: Seq<ConnectionEntry>,
    effects: Seq<Effect>,
) -> bool {
    if persist {
        &&& effects.len() == 1
        &&& effects[0] matches Effect::Persist(f) && file_of(f, next_id, connections)
    } else {
        effects.len() == 0
    }
}

#[verifier::opaque]
/// `new` is `old` with the connection `id` holding a profile saved from
/// `c` (added at the end, disconnected, if there was none) and in state `st`
/// (or in its former state, where `st` is `None`).
pub open spec fn upserted(
    old: Seq<ConnectionEntry>,
    new: Seq<ConnectionEntry>,
    id: u64,
    c: Config,
    st: Option<ConnState>,
) -> bool {
    let i = entry_index(old, id);
    if i < old.len() {
        &&& new.len() == old.len()
        &&& saved_as(new[i].profile, id, c)
        &&& new == old.update(
            i,
            ConnectionEntry {
                profile: new[i].profile,
                state: match st {
                    Some(x) => x,
                    None => old[i].state,
                },
                ..old[i]
            },
        )
    } else {
        &&& new.len() == old.len() + 1
        &&& saved_as(new.last().profile, id, c)
        &&& new == old.push(
            ConnectionEntry {
                id,
                profile: new.last().profile,
                state: match st {
                    Some(x) => x,
                    None => ConnState::Disconnected,
                },
                catalog_busy: false,
            },
        )
    }
}

/// The form filled from profile `p`, with the saved password where one was found.
pub open spec fn loaded_with(c: Config, p: ConnectionProfile, password: Option<String>) -> bool {
    &&& c == Config { password: c.password, ..c }
    &&& c.name@ == p.name@
    &&& c.driver == p.driver
    &&& c.path@ == p.path@
    &&& c.host@ == p.host@
    &&& c.port@ == p.port@
    &&& c.database@ == p.database@
    &&& c.user@ == p.user@
    &&& c.tls == p.tls
    &&& c.tls_verify == p.tls_verify
    &&& c.remember_password
    &&& c.password@ == match password {
        Some(x) => x@,
        None => Seq::empty(),
    }
}

impl Session {
    /// The id a saved form goes under: the one being edited, or the next free one.
    pub open spec fn save_id(&self) -> u64 {
        match self.editing_profile {
            Some(i) => i,
            None => self.next_id,
        }
    }

    pub open spec fn next_id_after_save(&self) -> u64 {
        match self.editing_profile {
            Some(_) => self.next_id,
            None => (self.next_id + 1) as u64,
        }
    }

    fn allocate_id(&mut self) -> (id: u64)
        requires
            old(self).next_id < u64::MAX,
        ensures
            id == old(self).next_id,
            *final(self) == (Session { next_id: (old(self).next_id + 1) as u64, ..*old(self) }),
    {
        let id = self.next_id;
        self.next_id = self.next_id + 1;
        id
    }

    fn save_id_now(&mut self) -> (id: u64)
        requires
            old(self).editing_profile is None ==> old(self).next_id < u64::MAX,
        ensures
            id == old(self).save_id(),
            *final(self) == (Session { next_id: old(self).next_id_after_save(), ..*old(self) }),
    {
        match self.editing_profile {
            Some(i) => i,
            None => self.allocate_id(),
        }
    }

    /// Puts `profile` in place of the connection with its id, or adds it at
    /// the end, disconnected; the state becomes `st` where it is given.
    fn upsert(&mut self, profile: ConnectionProfile, st: Option<ConnState>)
        ensures
            ({
                let old_c = old(self).connections@;
                let i = entry_index(old_c, profile.id);
                if i < old_c.len() {
                    final(self).connections@ == old_c.update(
                        i,
                        ConnectionEntry {
                            profile,
                            state: match st {
                                Some(x) => x,
                                None => old_c[i].state,
                            },
                            ..old_c[i]
                        },
                    )
                } else {
                    final(self).connections@ == old_c.push(
                        ConnectionEntry {
                            id: profile.id,
                            profile,
                            state: match st {
                                Some(x) => x,
                                None => ConnState::Disconnected,
                            },
                            catalog_busy: false,
                        },
                    )
                }
            }),
            *final(self) == (Session { connections: final(self).connections, ..*old(self) }),
    {
        let i = find_entry(&self.connections, profile.id);
        if i < self.connections.len() {
            let mut entry = self.connections.remove(i);
            entry.profile = profile;
            match st {
                Some(x) => {
                    entry.state = x;
                },
                None => {},
            }
            self.connections.insert(i, entry);
        } else {
            let state = match st {
                Some(x) => x,
                None => ConnState::Disconnected,
            };
            self.connections.push(
                ConnectionEntry { id: profile.id, profile, state, catalog_busy: false },
            );
        }
        proof {
            let old_c = old(self).connections@;
            if i < old_c.len() {
                assert(self.connections@ =~= old_c.update(
                    i as int,
                    self.connections@[i as int],
                ));
            }
        }
    }

    fn password_effects(&self, id: u64) -> (effects: Vec<Effect>)
        ensures
            effects@ == password_sync(
                self.keyring_enabled,
                self.form.remember_password,
                id,
                self.form.password,
            ),
    {
        let mut effects: Vec<Effect> = Vec::new();
        if self.keyring_enabled {
            if self.form.remember_password && !self.form.password.as_str().is_empty() {
                effects.push(Effect::SavePassword(id, self.form.password.clone()));
            } else {
                effects.push(Effect::DeletePassword(id));
            }
        }
        effects
    }

    fn persist_connections(&self) -> (effects: Vec<Effect>)
        ensures
            persist_effects(self.persist, self.next_id, self.connections@, effects@),
    {
        let mut effects: Vec<Effect> = Vec::new();
        if self.persist {
            let mut profiles: Vec<ConnectionProfile> = Vec::new();
            let mut i: usize = 0;
            while i < self.connections.len()
                invariant
                    i <= self.connections@.len(),
                    profiles@ == self.connections@.take(i as int).map_values(
                        |e: ConnectionEntry| e.profile,
                    ),
                decreases self.connections@.len() - i,
            {
                profiles.push(copy_profile(&self.connections[i].profile));
                assert(self.connections@.take(i + 1) =~= self.connections@.take(i as int).push(
                    self.connections@[i as int],
                ));
                assert(profiles@ =~= self.connections@.take(i + 1).map_values(
                    |e: ConnectionEntry| e.profile,
                ));
                i = i + 1;
            }
            assert(self.connections@.take(self.connections@.len() as int) =~= self.connections@);
            effects.push(Effect::Persist(ConnectionsFile { next_id: self.next_id, profiles }));
        }
        effects
    }
}


proof fn lemma_parts<A>(all: Seq<A>, first: Seq<A>, rest: Seq<A>, split: int, last: A)
    requires
        all == first + rest + seq![last],
        0 <= split <= rest.len(),
    ensures
        all.len() == first.len() + rest.len() + 1,
        all.take(first.len() as int) == first,
        all.subrange(first.len() as int, first.len() + split) == rest.take(split),
        all.subrange(first.len() + split, (first.len() + rest.len()) as int) == rest.skip(split),
        all.last() == last,
{
    assert(all.take(first.len() as int) =~= first);
    assert(all.subrange(first.len() as int, first.len() + split) =~= rest.take(split));
    assert(all.subrange(first.len() + split, (first.len() + rest.len()) as int) =~= rest.skip(split));
}

/// The effect that closes the form's window, if it is open.
pub open spec fn close_effects(w: Option<u64>) -> Seq<Effect> {
    match w {
        Some(x) => seq![Effect::CloseWindow(x)],
        None => seq![],
    }
}

impl Session {
    /// Saving the form as a profile: under the connection being edited, or a
    /// new id; the connection becomes the one edited and selected, its
    /// password is kept or removed as the form says, the profiles file is
    /// written, and the form's window closes.
    pub open spec fn saved_profile(old: Session, new: Session, effects: Seq<Effect>) -> bool {
        let id = old.save_id();
        let sync = password_sync(old.keyring_enabled, old.form.remember_password, id, old.form.password);
        let p: int = if old.persist { 1 } else { 0 };
        &&& upserted(old.connections@, new.connections@, id, old.form, None)
        &&& new.next_id == old.next_id_after_save()
        &&& new.status@ == "Conexión guardada."@
        &&& new == (Session {
            connections: new.connections,
            next_id: new.next_id,
            editing_profile: Some(id),
            selected_connection: Some(id),
            status: new.status,
            connection_window: None,
            form_error: if old.connection_window is Some { None } else { old.form_error },
            ..old
        })
        &&& effects.len() == sync.len() + p + close_effects(old.connection_window).len()
        &&& effects.take(sync.len() as int) == sync
        &&& persist_effects(new.persist, new.next_id, new.connections@, effects.subrange(sync.len() as int, sync.len() + p))
        &&& effects.skip(sync.len() + p) == close_effects(old.connection_window)
    }

    /// Saves the form as the profile of the connection being edited (or of a
    /// new one), in state `st` where given, and makes it the connection
    /// edited and selected.
    fn register_profile(&mut self, st: Option<ConnState>) -> (r: (u64, String))
        requires
            old(self).editing_profile is None ==> old(self).next_id < u64::MAX,
        ensures
            r.0 == old(self).save_id(),
            r.1@ == saved_name(old(self).form),
            upserted(old(self).connections@, final(self).connections@, r.0, old(self).form, st),
            *final(self) == (Session {
                connections: final(self).connections,
                next_id: old(self).next_id_after_save(),
                editing_profile: Some(r.0),
                selected_connection: Some(r.0),
                ..*old(self)
            }),
    {
        let id = self.save_id_now();
        let profile = profile_from_config(id, &self.form);
        let name = profile.name.clone();
        proof {
            lemma_entry_index_bounds(self.connections@, id);
            reveal(upserted);
        }
        self.upsert(profile, st);
        self.editing_profile = Some(id);
        self.selected_connection = Some(id);
        (id, name)
    }

    fn save_profile(&mut self) -> (effects: Vec<Effect>)
        requires
            old(self).editing_profile is None ==> old(self).next_id < u64::MAX,
        ensures
            Session::saved_profile(*old(self), *final(self), effects@),
    {
        let ghost form = self.form;
        let ghost keyring = self.keyring_enabled;
        let (id, _name) = self.register_profile(None);
        let mut effects = self.password_effects(id);
        let ghost sync = effects@;
        let mut persisted = self.persist_connections();
        let ghost written = persisted@;
        let ghost mid = *self;
        effects.append(&mut persisted);
        self.status = String::from_str("Conexión guardada.");
        match self.connection_window {
            Some(w) => {
                self.connection_window = None;
                self.form_error = None;
                effects.push(Effect::CloseWindow(w));
            },
            None => {},
        }
        proof {
            assert(effects@.take(sync.len() as int) =~= sync);
            assert(effects@.subrange(sync.len() as int, (sync.len() + written.len()) as int) =~= written);
            assert(effects@.skip((sync.len() + written.len()) as int) =~= close_effects(old(self).connection_window));
            assert(persist_effects(mid.persist, mid.next_id, mid.connections@, written));
        }
        effects
    }
}


impl Session {
    /// Connecting from the form: the form is saved (as `saved_profile` does,
    /// but keeping the window open) with the connection marked as connecting,
    /// an open connection under that id is dropped first, the password is
    /// cleared from the form, and the shell is asked to connect with the
    /// form as it was.
    pub open spec fn connect_started(old: Session, new: Session, effects: Seq<Effect>) -> bool {
        let id = old.save_id();
        let i = entry_index(old.connections@, id);
        let release = if i < old.connections@.len() && is_connected(old.connections@[i].state) {
            seq![Effect::Release(id)]
        } else {
            seq![]
        };
        let sync = password_sync(old.keyring_enabled, old.form.remember_password, id, old.form.password);
        let p: int = if old.persist { 1 } else { 0 };
        let a = release.len() as int;
        let b = a + sync.len();
        &&& upserted(old.connections@, new.connections@, id, old.form, Some(ConnState::Connecting))
        &&& new.next_id == old.next_id_after_save()
        &&& new.form.password@.len() == 0
        &&& new.status@ == "Conectando "@ + saved_name(old.form) + "…"@
        &&& new == (Session {
            connections: new.connections,
            next_id: new.next_id,
            editing_profile: Some(id),
            selected_connection: Some(id),
            form: Config { password: new.form.password, ..old.form },
            status: new.status,
            ..old
        })
        &&& effects.len() == b + p + 1
        &&& effects.take(a) == release
        &&& effects.subrange(a, b) == sync
        &&& persist_effects(new.persist, new.next_id, new.connections@, effects.subrange(b, b + p))
        &&& effects.last() == Effect::Connect(id, old.form)
    }

    /// Whether the connection `id` is saved and open.
    pub open spec fn is_open(&self, id: u64) -> bool {
        let i = entry_index(self.connections@, id);
        i < self.connections@.len() && is_connected(self.connections@[i].state)
    }

    fn connection_open(&self, id: u64) -> (r: bool)
        ensures
            r == self.is_open(id),
    {
        let i = find_entry(&self.connections, id);
        i < self.connections.len() && match &self.connections[i].state {
            ConnState::Connected { .. } => true,
            _ => false,
        }
    }

    /// The password effect for `id`, then the profiles file.
    fn bookkeeping_effects(&self, id: u64) -> (effects: Vec<Effect>)
        ensures
            ({
                let sync = password_sync(self.keyring_enabled, self.form.remember_password, id, self.form.password);
                let p: int = if self.persist { 1 } else { 0 };
                &&& effects@.len() == sync.len() + p
                &&& effects@.take(sync.len() as int) == sync
                &&& persist_effects(self.persist, self.next_id, self.connections@, effects@.skip(sync.len() as int))
            }),
    {
        let mut effects = self.password_effects(id);
        let ghost synced = effects@;
        let mut persisted = self.persist_connections();
        let ghost written = persisted@;
        effects.append(&mut persisted);
        assert(effects@.take(synced.len() as int) =~= synced);
        assert(effects@.skip(synced.len() as int) =~= written);
        effects
    }

    /// Clears the form's password and reports that `name` is connecting.
    fn start_connecting(&mut self, name: &String)
        ensures
            *final(self) == (Session { form: Config { password: final(self).form.password, ..old(self).form }, status: final(self).status, ..*old(self) }),
            final(self).form.password@.len() == 0,
            final(self).status@ == "Conectando "@ + name@ + "…"@,
    {
        self.form.password = String::new();
        let mut status = String::from_str("Conectando ");
        status.append(name.as_str());
        status.append("…");
        self.status = status;
    }

    /// The effects of connecting `id` with `config`, the registry being as
    /// it is now: drop the former connection if it was open, keep or remove
    /// the password, write the profiles file, then connect.
    fn connect_effects(&self, id: u64, was_open: bool, config: Config) -> (effects: Vec<Effect>)
        ensures
            ({
                let release = if was_open { seq![Effect::Release(id)] } else { seq![] };
                let sync = password_sync(self.keyring_enabled, self.form.remember_password, id, self.form.password);
                let p: int = if self.persist { 1 } else { 0 };
                let a = release.len() as int;
                let b = a + sync.len();
                &&& effects@.len() == b + p + 1
                &&& effects@.take(a) == release
                &&& effects@.subrange(a, b) == sync
                &&& persist_effects(self.persist, self.next_id, self.connections@, effects@.subrange(b, b + p))
                &&& effects@.last() == Effect::Connect(id, config)
            }),
    {
        let mut effects: Vec<Effect> = Vec::new();
        if was_open {
            effects.push(Effect::Release(id));
        }
        let ghost release = effects@;
        let mut kept = self.bookkeeping_effects(id);
        let ghost rest = kept@;
        effects.append(&mut kept);
        effects.push(Effect::Connect(id, config));
        proof {
            let sync = password_sync(self.keyring_enabled, self.form.remember_password, id, self.form.password);
            assert(effects@ =~= release + rest + seq![Effect::Connect(id, config)]);
            lemma_parts(effects@, release, rest, sync.len() as int, Effect::Connect(id, config));
        }
        effects
    }

    fn connect_profile(&mut self) -> (effects: Vec<Effect>)
        requires
            old(self).editing_profile is None ==> old(self).next_id < u64::MAX,
        ensures
            Session::connect_started(*old(self), *final(self), effects@),
    {
        let target = match self.editing_profile {
            Some(i) => i,
            None => self.next_id,
        };
        let was_open = self.connection_open(target);
        let config = copy_config(&self.form);
        let (id, name) = self.register_profile(Some(ConnState::Connecting));
        let effects = self.connect_effects(id, was_open, config);
        self.start_connecting(&name);
        effects
    }


    /// Opening the form on a saved connection: its profile, with the saved
    /// password where one was found, becomes the form being edited.
    pub open spec fn edit_opened(
        old: Session,
        new: Session,
        effects: Seq<Effect>,
        id: u64,
        password: Option<String>,
    ) -> bool {
        if old.has(id) {
            &&& loaded_with(new.form, old.entry(id).profile, password)
            &&& Session::opened_form_window(
                Session { form: new.form, editing_profile: Some(id), form_error: None, ..old },
                new,
                effects,
            )
        } else {
            new == old && effects.len() == 0
        }
    }

    fn edit_with(&mut self, id: u64, password: Option<String>) -> (effects: Vec<Effect>)
        ensures
            Session::edit_opened(*old(self), *final(self), effects@, id, password),
    {
        proof {
            lemma_entry_index_bounds(self.connections@, id);
        }
        let i = find_entry(&self.connections, id);
        if i >= self.connections.len() {
            return Vec::new();
        }
        let mut config = config_from_profile(&self.connections[i].profile);
        match password {
            Some(p) => {
                config.password = p;
            },
            None => {},
        }
        self.form = config;
        self.editing_profile = Some(id);
        self.form_error = None;
        self.open_connection_window()
    }

    /// Asking to edit a saved connection: with the credential store in use,
    /// its saved password is looked up first.
    pub open spec fn edit_requested(old: Session, new: Session, effects: Seq<Effect>, id: u64) -> bool {
        if !old.has(id) {
            new == old && effects.len() == 0
        } else if old.keyring_enabled {
            new == old && effects == seq![Effect::LookupPassword(id, PasswordUse::Edit)]
        } else {
            Session::edit_opened(old, new, effects, id, None)
        }
    }

    fn edit_connection(&mut self, id: u64) -> (effects: Vec<Effect>)
        ensures
            Session::edit_requested(*old(self), *final(self), effects@, id),
    {
        proof {
            lemma_entry_index_bounds(self.connections@, id);
        }
        let i = find_entry(&self.connections, id);
        if i >= self.connections.len() {
            return Vec::new();
        }
        if self.keyring_enabled {
            let mut effects: Vec<Effect> = Vec::new();
            effects.push(Effect::LookupPassword(id, PasswordUse::Edit));
            return effects;
        }
        self.edit_with(id, None)
    }

    /// Closing the form's window, if open, forgets what was being edited and
    /// the form's error.
    pub open spec fn form_closed(old: Session, new: Session, effects: Seq<Effect>) -> bool {
        match old.connection_window {
            Some(w) => {
                &&& new == (Session {
                    connection_window: None,
                    editing_profile: None,
                    form_error: None,
                    ..old
                })
                &&& effects == seq![Effect::CloseWindow(w)]
            },
            None => new == old && effects.len() == 0,
        }
    }

    fn close_connection_form(&mut self) -> (effects: Vec<Effect>)
        ensures
            Session::form_closed(*old(self), *final(self), effects@),
    {
        let mut effects: Vec<Effect> = Vec::new();
        match self.connection_window {
            Some(w) => {
                self.connection_window = None;
                self.editing_profile = None;
                self.form_error = None;
                effects.push(Effect::CloseWindow(w));
            },
            None => {},
        }
        effects
    }
}


/// Some tab is bound to connection `id`.
pub open spec fn has_tab_for(tabs: Seq<Tab>, id: u64) -> bool {
    exists|k: int| 0 <= k < tabs.len() && #[trigger] tabs[k].connection_id == Some(id)
}

fn tab_bound_to(tabs: &Vec<Tab>, id: u64) -> (r: bool)
    ensures
        r == has_tab_for(tabs@, id),
{
    let mut k: usize = 0;
    while k < tabs.len()
        invariant
            k <= tabs.len(),
            forall|j: int| 0 <= j < k ==> #[trigger] tabs@[j].connection_id != Some(id),
        decreases tabs.len() - k,
    {
        if tabs[k].connection_id == Some(id) {
            return true;
        }
        k = k + 1;
    }
    false
}

impl Session {
    /// The form's window is open on connection `id`.
    pub open spec fn watching(&self, id: u64) -> bool {
        self.editing_profile == Some(id) && self.connection_window is Some
    }

    fn is_watching(&self, id: u64) -> (r: bool)
        ensures
            r == self.watching(id),
    {
        self.editing_profile == Some(id) && self.connection_window.is_some()
    }

    /// A connection that opened: it shows its catalog and its node opens;
    /// the form's window closes if it was open on it; if no tab is bound to
    /// it, a tab with the engine's sample is added (and selected if the form
    /// was waiting for it). A connection deleted meanwhile is dropped.
    pub open spec fn connection_ready(
        old: Session,
        new: Session,
        effects: Seq<Effect>,
        id: u64,
        catalog: Vec<CatalogObject>,
    ) -> bool {
        if !old.has(id) {
            new == old && effects == seq![Effect::Release(id)]
        } else {
            let i = entry_index(old.connections@, id);
            let e = old.connections@[i];
            let watching = old.watching(id);
            let fresh = !has_tab_for(old.tabs@, id);
            let close = if watching { close_effects(old.connection_window) } else { seq![] };
            &&& new.connections@ == old.connections@.update(
                i,
                ConnectionEntry { state: ConnState::Connected { catalog }, ..e },
            )
            &&& open_keys(new.expanded@) == open_keys(old.expanded@).insert(node_key(id))
            &&& new.status@ == "Conectado a "@ + e.profile.name@
            &&& if fresh {
                &&& new.tabs@.len() == old.tabs@.len() + 1
                &&& new.tabs@.drop_last() == old.tabs@
                &&& new.tabs@.last().title@ == tab_title("Consulta"@, old.tabs@.len())
                &&& new.tabs@.last().connection_id == Some(id)
                &&& new.tabs@.last().result.is_empty_result()
                &&& !new.tabs@.last().running
                &&& new.tabs@.last().last_elapsed_ms is None
                &&& new.selected == if watching { old.tabs@.len() as usize } else { old.selected }
                &&& effects.len() == close.len() + 1
                &&& effects.take(close.len() as int) == close
                &&& effects.last() matches Effect::OpenEditor(t) && t@ == sample_text(e.profile.driver)
            } else {
                &&& new.tabs == old.tabs
                &&& new.selected == old.selected
                &&& effects == close
            }
            &&& new == (Session {
                connections: new.connections,
                expanded: new.expanded,
                status: new.status,
                tabs: new.tabs,
                selected: new.selected,
                connection_window: if watching { None } else { old.connection_window },
                form_error: if watching { None } else { old.form_error },
                ..old
            })
        }
    }

    fn mark_connected(&mut self, i: usize, catalog: Vec<CatalogObject>)
        requires
            i < old(self).connections@.len(),
        ensures
            final(self).connections@ == old(self).connections@.update(
                i as int,
                ConnectionEntry { state: ConnState::Connected { catalog }, ..old(self).connections@[i as int] },
            ),
            open_keys(final(self).expanded@) == open_keys(old(self).expanded@).insert(
                node_key(old(self).connections@[i as int].id),
            ),
            final(self).status@ == "Conectado a "@ + old(self).connections@[i as int].profile.name@,
            *final(self) == (Session {
                connections: final(self).connections,
                expanded: final(self).expanded,
                status: final(self).status,
                ..*old(self)
            }),
    {
        let mut entry = self.connections.remove(i);
        let id = entry.id;
        let mut status = String::from_str("Conectado a ");
        status.append(entry.profile.name.as_str());
        entry.state = ConnState::Connected { catalog };
        self.connections.insert(i, entry);
        assert(self.connections@ =~= old(self).connections@.update(i as int, self.connections@[i as int]));
        with_key(&mut self.expanded, decimal_text(id));
        self.status = status;
    }

    fn push_connection_tab(&mut self, id: u64, select: bool)
        requires
            old(self).tabs@.len() + 1 < usize::MAX,
        ensures
            final(self).tabs@.len() == old(self).tabs@.len() + 1,
            final(self).tabs@.drop_last() == old(self).tabs@,
            final(self).tabs@.last().title@ == tab_title("Consulta"@, old(self).tabs@.len()),
            final(self).tabs@.last().connection_id == Some(id),
            final(self).tabs@.last().result.is_empty_result(),
            !final(self).tabs@.last().running,
            final(self).tabs@.last().last_elapsed_ms is None,
            final(self).selected == if select { old(self).tabs@.len() as usize } else { old(self).selected },
            *final(self) == (Session { tabs: final(self).tabs, selected: final(self).selected, ..*old(self) }),
    {
        let index = self.tabs.len();
        self.tabs.push(new_tab(numbered_title("Consulta", index), Some(id)));
        assert(self.tabs@.drop_last() =~= old(self).tabs@);
        if select {
            self.selected = index;
        }
    }

    fn connected_ok(&mut self, id: u64, catalog: Vec<CatalogObject>) -> (effects: Vec<Effect>)
        requires
            old(self).tabs@.len() + 1 < usize::MAX,
        ensures
            Session::connection_ready(*old(self), *final(self), effects@, id, catalog),
    {
        proof {
            lemma_entry_index_bounds(self.connections@, id);
        }
        let i = find_entry(&self.connections, id);
        if i >= self.connections.len() {
            let mut effects: Vec<Effect> = Vec::new();
            effects.push(Effect::Release(id));
            return effects;
        }
        let watching = self.is_watching(id);
        let fresh = !tab_bound_to(&self.tabs, id);
        let driver = self.connections[i].profile.driver;
        let closing = self.connection_window;
        self.mark_connected(i, catalog);
        if watching {
            self.connection_window = None;
            self.form_error = None;
        }
        if fresh {
            self.push_connection_tab(id, watching);
        }
        connected_effects(watching, closing, fresh, driver)
    }

    /// A connection that failed: the connection shows the error, and so does
    /// the form if it was waiting for it.
    pub open spec fn connection_failed(old: Session, new: Session, effects: Seq<Effect>, id: u64, error: String) -> bool {
        let i = entry_index(old.connections@, id);
        &&& new.connections@ == if old.has(id) {
            old.connections@.update(i, ConnectionEntry { state: ConnState::Error(error), ..old.connections@[i] })
        } else {
            old.connections@
        }
        &&& new.status@ == "Error de conexión: "@ + error@
        &&& new == (Session {
            connections: new.connections,
            status: new.status,
            form_error: if old.watching(id) { Some(error) } else { old.form_error },
            ..old
        })
        &&& effects.len() == 0
    }

    fn connected_err(&mut self, id: u64, error: String) -> (effects: Vec<Effect>)
        ensures
            Session::connection_failed(*old(self), *final(self), effects@, id, error),
    {
        proof {
            lemma_entry_index_bounds(self.connections@, id);
        }
        let watching = self.is_watching(id);
        let i = find_entry(&self.connections, id);
        if i < self.connections.len() {
            let mut entry = self.connections.remove(i);
            entry.state = ConnState::Error(error.clone());
            self.connections.insert(i, entry);
            assert(self.connections@ =~= old(self).connections@.update(i as int, self.connections@[i as int]));
        }
        let mut status = String::from_str("Error de conexión: ");
        status.append(error.as_str());
        self.status = status;
        if watching {
            self.form_error = Some(error);
        }
        Vec::new()
    }
}

fn connected_effects(watching: bool, window: Option<u64>, fresh: bool, driver: Driver) -> (effects: Vec<Effect>)
    ensures
        ({
            let close = if watching { close_effects(window) } else { seq![] };
            if fresh {
                &&& effects@.len() == close.len() + 1
                &&& effects@.take(close.len() as int) == close
                &&& effects@.last() matches Effect::OpenEditor(t) && t@ == sample_text(driver)
            } else {
                effects@ == close
            }
        }),
{
    let mut effects: Vec<Effect> = Vec::new();
    if watching {
        match window {
            Some(w) => effects.push(Effect::CloseWindow(w)),
            None => {},
        }
    }
    let ghost close = effects@;
    if fresh {
        effects.push(Effect::OpenEditor(String::from_str(driver.sample())));
        assert(effects@.take(close.len() as int) =~= close);
    }
    effects
}


/// A click at `now` comes within a double click of one at `before` (a clock
/// that went backwards counts as no time at all).
pub open spec fn within_double_click(now: u64, before: u64) -> bool {
    now < before || now - before < DOUBLE_CLICK_MS
}

impl Session {
    /// Connecting a saved connection from the tree, once its saved password is
    /// known: a SQLite connection, or one with a saved password, connects
    /// right away; otherwise the form opens on it to ask for the password.
    /// Connections already open or connecting are left alone.
    pub open spec fn connect_from_tree(
        old: Session,
        new: Session,
        effects: Seq<Effect>,
        id: u64,
        password: Option<String>,
    ) -> bool {
        let i = entry_index(old.connections@, id);
        if !old.has(id) || old.connections@[i].state is Connected || old.connections@[i].state is Connecting {
            new == old && effects.len() == 0
        } else {
            let p = old.connections@[i].profile;
            if p.driver == Driver::Sqlite || password is Some {
                &&& new.connections@ == old.connections@.update(
                    i,
                    ConnectionEntry { state: ConnState::Connecting, ..old.connections@[i] },
                )
                &&& new.status@ == "Conectando "@ + p.name@ + "…"@
                &&& new == (Session { connections: new.connections, status: new.status, ..old })
                &&& effects.len() == 1
                &&& effects[0] matches Effect::Connect(c, config) && c == id && loaded_with(config, p, password)
            } else {
                &&& loaded_with(new.form, p, password)
                &&& Session::opened_form_window(
                    Session { form: new.form, editing_profile: Some(id), form_error: None, ..old },
                    new,
                    effects,
                )
            }
        }
    }

    fn connect_with(&mut self, id: u64, password: Option<String>) -> (effects: Vec<Effect>)
        ensures
            Session::connect_from_tree(*old(self), *final(self), effects@, id, password),
    {
        proof {
            lemma_entry_index_bounds(self.connections@, id);
        }
        let i = find_entry(&self.connections, id);
        if i >= self.connections.len() {
            return Vec::new();
        }
        match &self.connections[i].state {
            ConnState::Connected { .. } | ConnState::Connecting => {
                return Vec::new();
            },
            _ => {},
        }
        let mut config = config_from_profile(&self.connections[i].profile);
        let sqlite = self.connections[i].profile.driver == Driver::Sqlite;
        let found = password.is_some();
        match password {
            Some(p) => {
                config.password = p;
            },
            None => {},
        }
        if sqlite || found {
            self.start_tree_connect(i, config)
        } else {
            self.form = config;
            self.editing_profile = Some(id);
            self.form_error = None;
            self.open_connection_window()
        }
    }

    fn start_tree_connect(&mut self, i: usize, config: Config) -> (effects: Vec<Effect>)
        requires
            i < old(self).connections@.len(),
        ensures
            final(self).connections@ == old(self).connections@.update(
                i as int,
                ConnectionEntry { state: ConnState::Connecting, ..old(self).connections@[i as int] },
            ),
            final(self).status@ == "Conectando "@ + old(self).connections@[i as int].profile.name@ + "…"@,
            *final(self) == (Session { connections: final(self).connections, status: final(self).status, ..*old(self) }),
            effects@ == seq![Effect::Connect(old(self).connections@[i as int].id, config)],
    {
        let mut entry = self.connections.remove(i);
        let id = entry.id;
        let mut status = String::from_str("Conectando ");
        status.append(entry.profile.name.as_str());
        status.append("…");
        entry.state = ConnState::Connecting;
        self.connections.insert(i, entry);
        assert(self.connections@ =~= old(self).connections@.update(i as int, self.connections@[i as int]));
        self.status = status;
        let mut effects: Vec<Effect> = Vec::new();
        effects.push(Effect::Connect(id, config));
        assert(effects@ =~= seq![Effect::Connect(id, config)]);
        effects
    }

    /// After a click on a connection in the tree at `now`.
    pub open spec fn clicked(&self, id: u64, now: u64) -> Session {
        Session { last_click: Some(id), last_click_at: Some(now), selected_connection: Some(id), ..*self }
    }

    /// Whether a click on `id` at `now` completes a double click.
    pub open spec fn is_double_click(&self, id: u64, now: u64) -> bool {
        self.last_click == Some(id) && match self.last_click_at {
            Some(before) => within_double_click(now, before),
            None => false,
        }
    }

    /// A click on a connection selects it; a single click opens or closes its
    /// node, a double click connects it (looking up its saved password first
    /// when the credential store is in use).
    pub open spec fn connection_clicked(old: Session, new: Session, effects: Seq<Effect>, id: u64, now: u64) -> bool {
        let mid = old.clicked(id, now);
        let i = entry_index(old.connections@, id);
        if !old.is_double_click(id, now) {
            Session::toggled(mid, new, node_key(id)) && effects.len() == 0
        } else if !old.has(id) || old.connections@[i].state is Connected || old.connections@[i].state is Connecting {
            new == mid && effects.len() == 0
        } else if old.keyring_enabled {
            new == mid && effects == seq![Effect::LookupPassword(id, PasswordUse::Connect)]
        } else {
            Session::connect_from_tree(mid, new, effects, id, None)
        }
    }

    fn select_connection(&mut self, id: u64, now: u64) -> (effects: Vec<Effect>)
        ensures
            Session::connection_clicked(*old(self), *final(self), effects@, id, now),
    {
        proof {
            lemma_entry_index_bounds(self.connections@, id);
        }
        let double = self.last_click == Some(id) && match self.last_click_at {
            Some(before) => now < before || now - before < DOUBLE_CLICK_MS,
            None => false,
        };
        self.last_click = Some(id);
        self.last_click_at = Some(now);
        self.selected_connection = Some(id);
        if !double {
            self.toggle_expanded(decimal_text(id));
            return Vec::new();
        }
        let i = find_entry(&self.connections, id);
        if i >= self.connections.len() {
            return Vec::new();
        }
        match &self.connections[i].state {
            ConnState::Connected { .. } | ConnState::Connecting => {
                return Vec::new();
            },
            _ => {},
        }
        if self.keyring_enabled {
            let mut effects: Vec<Effect> = Vec::new();
            effects.push(Effect::LookupPassword(id, PasswordUse::Connect));
            return effects;
        }
        self.connect_with(id, None)
    }
}


/// The tabs after connection `id` closes: those bound to it lose their result.
pub open spec fn results_cleared(old: Seq<Tab>, new: Seq<Tab>, id: u64) -> bool {
    &&& new.len() == old.len()
    &&& forall|k: int| 0 <= k < old.len() ==> if (#[trigger] old[k]).connection_id == Some(id) {
        &&& new[k] == Tab { result: new[k].result, ..old[k] }
        &&& new[k].result.is_empty_result()
    } else {
        new[k] == old[k]
    }
}

/// The tabs after connection `id` is deleted: those bound to it are unbound.
pub open spec fn tabs_unbound(old: Seq<Tab>, new: Seq<Tab>, id: u64) -> bool {
    &&& new.len() == old.len()
    &&& forall|k: int| 0 <= k < old.len() ==> #[trigger] new[k] == if old[k].connection_id == Some(id) {
        Tab { connection_id: None, ..old[k] }
    } else {
        old[k]
    }
}

fn clear_results(tabs: &mut Vec<Tab>, id: u64)
    ensures
        results_cleared(old(tabs)@, final(tabs)@, id),
{
    let mut k: usize = 0;
    while k < tabs.len()
        invariant
            k <= tabs.len(),
            tabs@.len() == old(tabs)@.len(),
            forall|j: int| 0 <= j < k ==> if (#[trigger] old(tabs)@[j]).connection_id == Some(id) {
                &&& tabs@[j] == Tab { result: tabs@[j].result, ..old(tabs)@[j] }
                &&& tabs@[j].result.is_empty_result()
            } else {
                tabs@[j] == old(tabs)@[j]
            },
            forall|j: int| k <= j < tabs@.len() ==> #[trigger] tabs@[j] == old(tabs)@[j],
        decreases tabs.len() - k,
    {
        if tabs[k].connection_id == Some(id) {
            let mut tab = tabs.remove(k);
            tab.result = QueryResult::default();
            tabs.insert(k, tab);
        }
        k = k + 1;
    }
}

fn unbind_tabs(tabs: &mut Vec<Tab>, id: u64)
    ensures
        tabs_unbound(old(tabs)@, final(tabs)@, id),
{
    let mut k: usize = 0;
    while k < tabs.len()
        invariant
            k <= tabs.len(),
            tabs@.len() == old(tabs)@.len(),
            forall|j: int| 0 <= j < k ==> #[trigger] tabs@[j] == if old(tabs)@[j].connection_id == Some(id) {
                Tab { connection_id: None, ..old(tabs)@[j] }
            } else {
                old(tabs)@[j]
            },
            forall|j: int| k <= j < tabs@.len() ==> #[trigger] tabs@[j] == old(tabs)@[j],
        decreases tabs.len() - k,
    {
        if tabs[k].connection_id == Some(id) {
            let mut tab = tabs.remove(k);
            tab.connection_id = None;
            tabs.insert(k, tab);
        }
        k = k + 1;
    }
}

impl Session {
    /// Disconnecting the selected connection, if it is open: it is dropped,
    /// and the tabs bound to it lose their results.
    pub open spec fn disconnected(old: Session, new: Session, effects: Seq<Effect>) -> bool {
        match old.selected_connection {
            Some(id) if old.has(id) && old.entry(id).state is Connected => {
                let i = entry_index(old.connections@, id);
                &&& new.connections@ == old.connections@.update(
                    i,
                    ConnectionEntry { state: ConnState::Disconnected, ..old.connections@[i] },
                )
                &&& results_cleared(old.tabs@, new.tabs@, id)
                &&& new.status@ == old.connections@[i].profile.name@ + " desconectada."@
                &&& new == (Session { connections: new.connections, tabs: new.tabs, status: new.status, ..old })
                &&& effects == seq![Effect::Release(id)]
            },
            _ => new == old && effects.len() == 0,
        }
    }

    fn disconnect(&mut self) -> (effects: Vec<Effect>)
        ensures
            Session::disconnected(*old(self), *final(self), effects@),
    {
        let id = match self.selected_connection {
            Some(id) => id,
            None => return Vec::new(),
        };
        proof {
            lemma_entry_index_bounds(self.connections@, id);
        }
        let i = find_entry(&self.connections, id);
        if i >= self.connections.len() {
            return Vec::new();
        }
        match &self.connections[i].state {
            ConnState::Connected { .. } => {},
            _ => {
                return Vec::new();
            },
        }
        let mut entry = self.connections.remove(i);
        let mut status = entry.profile.name.clone();
        status.append(" desconectada.");
        entry.state = ConnState::Disconnected;
        self.connections.insert(i, entry);
        assert(self.connections@ =~= old(self).connections@.update(i as int, self.connections@[i as int]));
        clear_results(&mut self.tabs, id);
        self.status = status;
        let mut effects: Vec<Effect> = Vec::new();
        effects.push(Effect::Release(id));
        assert(effects@ =~= seq![Effect::Release(id)]);
        effects
    }

    /// Deleting the selected connection takes two presses: the first asks
    /// for confirmation, the second removes it (unbinding its tabs, writing
    /// the profiles file, forgetting its saved password and dropping it if
    /// open).
    pub open spec fn delete_pressed(old: Session, new: Session, effects: Seq<Effect>) -> bool {
        match old.selected_connection {
            None => new == old && effects.len() == 0,
            Some(id) => if old.pending_delete == Some(id) {
                if old.has(id) {
                    let i = entry_index(old.connections@, id);
                    let removed = old.connections@[i];
                    let forget = if old.keyring_enabled { seq![Effect::DeletePassword(id)] } else { seq![] };
                    let release = if removed.state is Connected { seq![Effect::Release(id)] } else { seq![] };
                    let p: int = if old.persist { 1 } else { 0 };
                    &&& new.connections@ == old.connections@.remove(i)
                    &&& tabs_unbound(old.tabs@, new.tabs@, id)
                    &&& new.status@ == removed.profile.name@ + " eliminada."@
                    &&& new == (Session {
                        connections: new.connections,
                        tabs: new.tabs,
                        status: new.status,
                        selected_connection: None,
                        pending_delete: None,
                        ..old
                    })
                    &&& effects.len() == p + forget.len() + release.len()
                    &&& persist_effects(new.persist, new.next_id, new.connections@, effects.take(p))
                    &&& effects.skip(p) == forget + release
                } else {
                    new == (Session { pending_delete: None, ..old }) && effects.len() == 0
                }
            } else {
                &&& new.status@ == "Pulsa Eliminar otra vez para confirmar."@
                &&& new == (Session { pending_delete: Some(id), status: new.status, ..old })
                &&& effects.len() == 0
            },
        }
    }

    fn remove_connection(&mut self, i: usize) -> (removed: ConnectionEntry)
        requires
            i < old(self).connections@.len(),
        ensures
            removed == old(self).connections@[i as int],
            final(self).connections@ == old(self).connections@.remove(i as int),
            tabs_unbound(old(self).tabs@, final(self).tabs@, removed.id),
            *final(self) == (Session {
                connections: final(self).connections,
                tabs: final(self).tabs,
                selected_connection: None,
                pending_delete: None,
                ..*old(self)
            }),
    {
        let removed = self.connections.remove(i);
        unbind_tabs(&mut self.tabs, removed.id);
        self.selected_connection = None;
        self.pending_delete = None;
        removed
    }

    fn deletion_effects(&self, id: u64, was_open: bool) -> (effects: Vec<Effect>)
        ensures
            ({
                let forget = if self.keyring_enabled { seq![Effect::DeletePassword(id)] } else { seq![] };
                let release = if was_open { seq![Effect::Release(id)] } else { seq![] };
                let p: int = if self.persist { 1 } else { 0 };
                &&& effects@.len() == p + forget.len() + release.len()
                &&& persist_effects(self.persist, self.next_id, self.connections@, effects@.take(p))
                &&& effects@.skip(p) == forget + release
            }),
    {
        let mut effects = self.persist_connections();
        let ghost written = effects@;
        if self.keyring_enabled {
            effects.push(Effect::DeletePassword(id));
        }
        if was_open {
            effects.push(Effect::Release(id));
        }
        proof {
            let forget = if self.keyring_enabled { seq![Effect::DeletePassword(id)] } else { seq![] };
            let release = if was_open { seq![Effect::Release(id)] } else { seq![] };
            assert(effects@ =~= written + forget + release);
            assert(effects@.take(written.len() as int) =~= written);
            assert(effects@.skip(written.len() as int) =~= forget + release);
        }
        effects
    }

    fn delete_connection(&mut self) -> (effects: Vec<Effect>)
        ensures
            Session::delete_pressed(*old(self), *final(self), effects@),
    {
        let id = match self.selected_connection {
            Some(id) => id,
            None => return Vec::new(),
        };
        if self.pending_delete != Some(id) {
            self.pending_delete = Some(id);
            self.status = String::from_str("Pulsa Eliminar otra vez para confirmar.");
            return Vec::new();
        }
        proof {
            lemma_entry_index_bounds(self.connections@, id);
        }
        let i = find_entry(&self.connections, id);
        if i >= self.connections.len() {
            self.pending_delete = None;
            return Vec::new();
        }
        let removed = self.remove_connection(i);
        let was_open = match removed.state {
            ConnState::Connected { .. } => true,
            _ => false,
        };
        let effects = self.deletion_effects(id, was_open);
        let mut status = removed.profile.name;
        status.append(" eliminada.");
        self.status = status;
        effects
    }

    /// Refreshing the catalog of the selected connection, if it is open and
    /// no refresh is under way.
    pub open spec fn refresh_started(old: Session, new: Session, effects: Seq<Effect>) -> bool {
        match old.selected_connection {
            Some(id) if old.has(id) && !old.entry(id).catalog_busy && old.entry(id).state is Connected => {
                let i = entry_index(old.connections@, id);
                &&& new.connections@ == old.connections@.update(
                    i,
                    ConnectionEntry { catalog_busy: true, ..old.connections@[i] },
                )
                &&& new.status@ == "Actualizando catálogo…"@
                &&& new == (Session { connections: new.connections, status: new.status, ..old })
                &&& effects == seq![Effect::RefreshCatalog(id)]
            },
            _ => new == old && effects.len() == 0,
        }
    }

    fn refresh(&mut self) -> (effects: Vec<Effect>)
        ensures
            Session::refresh_started(*old(self), *final(self), effects@),
    {
        let id = match self.selected_connection {
            Some(id) => id,
            None => return Vec::new(),
        };
        proof {
            lemma_entry_index_bounds(self.connections@, id);
        }
        let i = find_entry(&self.connections, id);
        if i >= self.connections.len() || self.connections[i].catalog_busy {
            return Vec::new();
        }
        match &self.connections[i].state {
            ConnState::Connected { .. } => {},
            _ => {
                return Vec::new();
            },
        }
        let mut entry = self.connections.remove(i);
        entry.catalog_busy = true;
        self.connections.insert(i, entry);
        assert(self.connections@ =~= old(self).connections@.update(i as int, self.connections@[i as int]));
        self.status = String::from_str("Actualizando catálogo…");
        let mut effects: Vec<Effect> = Vec::new();
        effects.push(Effect::RefreshCatalog(id));
        assert(effects@ =~= seq![Effect::RefreshCatalog(id)]);
        effects
    }

    /// A catalog refresh that finished: the connection is no longer busy, and
    /// shows the new catalog if it is still open; or the error is reported.
    pub open spec fn catalog_arrived(
        old: Session,
        new: Session,
        id: u64,
        result: Result<Vec<CatalogObject>, String>,
    ) -> bool {
        if old.has(id) {
            let i = entry_index(old.connections@, id);
            let e = old.connections@[i];
            &&& new.connections@ == old.connections@.update(
                i,
                ConnectionEntry {
                    catalog_busy: false,
                    state: match result {
                        Ok(c) => if e.state is Connected { ConnState::Connected { catalog: c } } else { e.state },
                        Err(_) => e.state,
                    },
                    ..e
                },
            )
            &&& new.status@ == match result {
                Ok(_) => "Catálogo actualizado."@,
                Err(m) => "Error: "@ + m@,
            }
            &&& new == (Session { connections: new.connections, status: new.status, ..old })
        } else {
            new == old
        }
    }

    fn catalog_refreshed(&mut self, id: u64, result: Result<Vec<CatalogObject>, String>)
        ensures
            Session::catalog_arrived(*old(self), *final(self), id, result),
    {
        proof {
            lemma_entry_index_bounds(self.connections@, id);
        }
        let i = find_entry(&self.connections, id);
        if i >= self.connections.len() {
            return;
        }
        let mut entry = self.connections.remove(i);
        entry.catalog_busy = false;
        let status = match result {
            Ok(catalog) => {
                if let ConnState::Connected { .. } = entry.state {
                    entry.state = ConnState::Connected { catalog };
                }
                String::from_str("Catálogo actualizado.")
            },
            Err(m) => {
                let mut s = String::from_str("Error: ");
                s.append(m.as_str());
                s
            },
        };
        self.connections.insert(i, entry);
        assert(self.connections@ =~= old(self).connections@.update(i as int, self.connections@[i as int]));
        self.status = status;
    }
}


/// The texts of a list of strings.
pub open spec fn texts(v: Seq<String>) -> Seq<Seq<char>> {
    v.map_values(|s: String| s@)
}

/// `parts.join(sep)`.
pub open spec fn joined(parts: Seq<Seq<char>>, sep: Seq<char>) -> Seq<char>
    decreases parts.len(),
{
    if parts.len() == 0 {
        seq![]
    } else if parts.len() == 1 {
        parts[0]
    } else {
        joined(parts.drop_last(), sep) + sep + parts.last()
    }
}

/// A result as tab-separated text: the column names, then one line per row.
pub open spec fn result_text(r: QueryResult) -> Seq<char> {
    let lines = seq![joined(texts(r.columns@), "\t"@)] + r.rows@.map_values(
        |row: Vec<String>| joined(texts(row@), "\t"@),
    );
    joined(lines, "\n"@)
}

/// `parts.join(sep)`.
pub fn join_texts(parts: &Vec<String>, sep: &str) -> (r: String)
    ensures
        r@ == joined(texts(parts@), sep@),
{
    let mut r = String::new();
    let mut i: usize = 0;
    while i < parts.len()
        invariant
            i <= parts.len(),
            r@ == joined(texts(parts@.take(i as int)), sep@),
        decreases parts.len() - i,
    {
        assert(texts(parts@.take(i + 1)).drop_last() =~= texts(parts@.take(i as int)));
        if i > 0 {
            r.append(sep);
        } else {
            assert(r@ =~= Seq::<char>::empty());
        }
        r.append(parts[i].as_str());
        proof {
            if i == 0 {
                assert(r@ =~= texts(parts@.take(1))[0]);
            }
        }
        i = i + 1;
    }
    assert(parts@.take(parts@.len() as int) =~= parts@);
    r
}

/// The text the results of a query are copied as.
pub fn copy_text(r: &QueryResult) -> (t: String)
    ensures
        t@ == result_text(*r),
{
    let mut lines: Vec<String> = Vec::new();
    lines.push(join_texts(&r.columns, "\t"));
    let mut i: usize = 0;
    while i < r.rows.len()
        invariant
            i <= r.rows@.len(),
            texts(lines@) == seq![joined(texts(r.columns@), "\t"@)] + r.rows@.take(i as int).map_values(
                |row: Vec<String>| joined(texts(row@), "\t"@),
            ),
        decreases r.rows@.len() - i,
    {
        let line = join_texts(&r.rows[i], "\t");
        let ghost before = lines@;
        lines.push(line);
        assert(texts(lines@) =~= texts(before).push(line@));
        assert(r.rows@.take(i + 1) =~= r.rows@.take(i as int).push(r.rows@[i as int]));
        assert(r.rows@.take(i + 1).map_values(|row: Vec<String>| joined(texts(row@), "\t"@)) =~= r.rows@.take(
            i as int,
        ).map_values(|row: Vec<String>| joined(texts(row@), "\t"@)).push(
            joined(texts(r.rows@[i as int]@), "\t"@),
        ));
        i = i + 1;
    }
    assert(r.rows@.take(r.rows@.len() as int) =~= r.rows@);
    join_texts(&lines, "\n")
}

/// The status after a query: affected rows for a statement without columns,
/// otherwise the rows shown (noting the cap), and the time it took.
pub open spec fn run_status(r: QueryResult, elapsed: u64) -> Seq<char> {
    if r.columns@.len() == 0 {
        decimal(r.affected as nat) + " filas afectadas · "@ + decimal(elapsed as nat) + " ms"@
    } else if r.truncated {
        decimal(r.rows@.len()) + " filas"@ + " (vista limitada a 500)"@ + " · "@ + decimal(elapsed as nat)
            + " ms"@
    } else {
        decimal(r.rows@.len()) + " filas"@ + " · "@ + decimal(elapsed as nat) + " ms"@
    }
}

fn run_status_text(r: &QueryResult, elapsed: u64) -> (s: String)
    ensures
        s@ == run_status(*r, elapsed),
{
    let time = decimal_text(elapsed);
    if r.columns.len() == 0 {
        let mut s = decimal_text(r.affected as u64);
        s.append(" filas afectadas · ");
        s.append(time.as_str());
        s.append(" ms");
        s
    } else {
        let mut s = decimal_text(r.rows.len() as u64);
        s.append(" filas");
        if r.truncated {
            s.append(" (vista limitada a 500)");
        }
        s.append(" · ");
        s.append(time.as_str());
        s.append(" ms");
        s
    }
}

/// Some connection with `id` is open.
pub open spec fn live(entries: Seq<ConnectionEntry>, id: u64) -> bool {
    exists|k: int| 0 <= k < entries.len() && #[trigger] entries[k].id == id && entries[k].state is Connected
}

fn is_live(entries: &Vec<ConnectionEntry>, id: u64) -> (r: bool)
    ensures
        r == live(entries@, id),
{
    let mut k: usize = 0;
    while k < entries.len()
        invariant
            k <= entries.len(),
            forall|j: int| 0 <= j < k ==> !(#[trigger] entries@[j].id == id && entries@[j].state is Connected),
        decreases entries.len() - k,
    {
        if entries[k].id == id {
            if let ConnState::Connected { .. } = entries[k].state {
                return true;
            }
        }
        k = k + 1;
    }
    false
}

impl Session {
    /// Running the selected tab's text: only on a tab bound to an open
    /// connection and not already running.
    pub open spec fn run_requested(old: Session, new: Session, effects: Seq<Effect>, sql: String) -> bool {
        let t = old.tabs@[old.selected as int];
        match t.connection_id {
            None => {
                &&& new.status@ == "Esta pestaña no está asociada a ninguna conexión."@
                &&& new == (Session { status: new.status, ..old })
                &&& effects.len() == 0
            },
            Some(c) => if !live(old.connections@, c) {
                &&& new.status@ == "Esta conexión no está activa."@
                &&& new == (Session { status: new.status, ..old })
                &&& effects.len() == 0
            } else if t.running {
                new == old && effects.len() == 0
            } else {
                &&& new.tabs@ == old.tabs@.update(old.selected as int, Tab { running: true, ..t })
                &&& new.status@ == "Ejecutando…"@
                &&& new == (Session { tabs: new.tabs, status: new.status, ..old })
                &&& effects == seq![Effect::Execute { tab: old.selected, connection: c, sql }]
            },
        }
    }

    fn run_query(&mut self, sql: String) -> (effects: Vec<Effect>)
        requires
            old(self).wf(),
        ensures
            Session::run_requested(*old(self), *final(self), effects@, sql),
    {
        let index = self.selected;
        let c = match self.tabs[index].connection_id {
            Some(c) => c,
            None => {
                self.status = String::from_str("Esta pestaña no está asociada a ninguna conexión.");
                return Vec::new();
            },
        };
        if !is_live(&self.connections, c) {
            self.status = String::from_str("Esta conexión no está activa.");
            return Vec::new();
        }
        if self.tabs[index].running {
            return Vec::new();
        }
        let mut tab = self.tabs.remove(index);
        tab.running = true;
        self.tabs.insert(index, tab);
        assert(self.tabs@ =~= old(self).tabs@.update(index as int, self.tabs@[index as int]));
        self.status = String::from_str("Ejecutando…");
        let mut effects: Vec<Effect> = Vec::new();
        effects.push(Effect::Execute { tab: index, connection: c, sql });
        assert(effects@ =~= seq![Effect::Execute { tab: index, connection: c, sql }]);
        effects
    }

    /// The engine of connection `id`, if it is saved and open.
    pub open spec fn open_driver(&self, id: u64) -> Option<Driver> {
        if self.has(id) && self.entry(id).state is Connected {
            Some(self.entry(id).profile.driver)
        } else {
            None
        }
    }

    /// Previewing an object of an open connection: a tab titled after the
    /// object opens with its preview query, which runs at once.
    pub open spec fn preview_opened(
        old: Session,
        new: Session,
        effects: Seq<Effect>,
        id: u64,
        object: CatalogObject,
    ) -> bool {
        match old.open_driver(id) {
            None => new == old && effects.len() == 0,
            Some(d) => {
                let sql = object_preview(object, d);
                &&& new.tabs@.len() == old.tabs@.len() + 1
                &&& new.tabs@.drop_last() == old.tabs@
                &&& new.tabs@.last().title@ == tab_title(object_label(object), old.tabs@.len())
                &&& new.tabs@.last().connection_id == Some(id)
                &&& new.tabs@.last().result.is_empty_result()
                &&& new.tabs@.last().running
                &&& new.tabs@.last().last_elapsed_ms is None
                &&& new.selected == old.tabs@.len()
                &&& new.status@ == "Ejecutando…"@
                &&& new == (Session { tabs: new.tabs, selected: new.selected, status: new.status, ..old })
                &&& effects.len() == 2
                &&& effects[0] matches Effect::OpenEditor(t) && t@ == sql
                &&& effects[1] matches Effect::Execute { tab, connection, sql: q } && tab
                    == old.tabs@.len() && connection == id && q@ == sql
            },
        }
    }

    fn preview(&mut self, id: u64, object: CatalogObject) -> (effects: Vec<Effect>)
        requires
            old(self).wf(),
            old(self).tabs@.len() + 1 < usize::MAX,
        ensures
            Session::preview_opened(*old(self), *final(self), effects@, id, object),
    {
        proof {
            lemma_entry_index_bounds(self.connections@, id);
        }
        let i = find_entry(&self.connections, id);
        if i >= self.connections.len() {
            return Vec::new();
        }
        match &self.connections[i].state {
            ConnState::Connected { .. } => {},
            _ => {
                return Vec::new();
            },
        }
        let driver = self.connections[i].profile.driver;
        let sql = object.preview(driver);
        let label = object.label();
        let run_sql = sql.clone();
        let mut effects = self.add_tab(label.as_str(), sql, Some(id));
        proof {
            let k = entry_index(self.connections@, id);
            assert(self.connections@[k].id == id && self.connections@[k].state is Connected);
            assert(live(self.connections@, id));
            assert(self.tabs@[self.selected as int] == self.tabs@.last());
        }
        let ghost mid = *self;
        let ghost first = effects@;
        let mut more = self.run_query(run_sql);
        let ghost second = more@;
        effects.append(&mut more);
        proof {
            assert(self.tabs@.drop_last() =~= old(self).tabs@);
        }
        effects
    }

    /// A query run that finished: the tab stops running and shows the result
    /// and its time, and the connection shows the catalog read after it; or
    /// the tab is emptied and the error reported. Unknown tabs are ignored.
    pub open spec fn run_finished(old: Session, new: Session, index: usize, id: u64, outcome: Executed) -> bool {
        if index < old.tabs@.len() {
            let t = old.tabs@[index as int];
            match outcome {
                Ok((r, catalog, elapsed)) => {
                    let i = entry_index(old.connections@, id);
                    &&& new.tabs@ == old.tabs@.update(
                        index as int,
                        Tab { running: false, result: r, last_elapsed_ms: Some(elapsed), ..t },
                    )
                    &&& new.connections@ == match catalog {
                        Ok(c) => if old.has(id) && old.connections@[i].state is Connected {
                            old.connections@.update(
                                i,
                                ConnectionEntry { state: ConnState::Connected { catalog: c }, ..old.connections@[i] },
                            )
                        } else {
                            old.connections@
                        },
                        Err(_) => old.connections@,
                    }
                    &&& new.status@ == match catalog {
                        Ok(_) => run_status(r, elapsed),
                        Err(m) => run_status(r, elapsed) + " · No se pudo actualizar el catálogo: "@ + m@,
                    }
                    &&& new == (Session { tabs: new.tabs, connections: new.connections, status: new.status, ..old })
                },
                Err(m) => {
                    &&& new.tabs@ == old.tabs@.update(
                        index as int,
                        Tab { running: false, result: new.tabs@[index as int].result, ..t },
                    )
                    &&& new.tabs@[index as int].result.is_empty_result()
                    &&& new.status@ == "Error SQL: "@ + m@
                    &&& new == (Session { tabs: new.tabs, status: new.status, ..old })
                },
            }
        } else {
            new == old
        }
    }

    fn show_catalog(&mut self, id: u64, catalog: Vec<CatalogObject>)
        ensures
            ({
                let i = entry_index(old(self).connections@, id);
                final(self).connections@ == if old(self).has(id) && old(self).connections@[i].state is Connected {
                    old(self).connections@.update(
                        i,
                        ConnectionEntry { state: ConnState::Connected { catalog }, ..old(self).connections@[i] },
                    )
                } else {
                    old(self).connections@
                }
            }),
            *final(self) == (Session { connections: final(self).connections, ..*old(self) }),
    {
        proof {
            lemma_entry_index_bounds(self.connections@, id);
        }
        let i = find_entry(&self.connections, id);
        if i < self.connections.len() {
            if let ConnState::Connected { .. } = self.connections[i].state {
                let mut entry = self.connections.remove(i);
                entry.state = ConnState::Connected { catalog };
                self.connections.insert(i, entry);
                assert(self.connections@ =~= old(self).connections@.update(i as int, self.connections@[i as int]));
            }
        }
    }

    fn completed(&mut self, index: usize, id: u64, outcome: Executed)
        ensures
            Session::run_finished(*old(self), *final(self), index, id, outcome),
    {
        if index >= self.tabs.len() {
            return;
        }
        let mut tab = self.tabs.remove(index);
        tab.running = false;
        match outcome {
            Ok((result, catalog, elapsed)) => {
                let mut status = run_status_text(&result, elapsed);
                tab.result = result;
                tab.last_elapsed_ms = Some(elapsed);
                self.tabs.insert(index, tab);
                match catalog {
                    Ok(c) => self.show_catalog(id, c),
                    Err(m) => {
                        status.append(" · No se pudo actualizar el catálogo: ");
                        status.append(m.as_str());
                    },
                }
                self.status = status;
            },
            Err(m) => {
                tab.result = QueryResult::default();
                self.tabs.insert(index, tab);
                let mut status = String::from_str("Error SQL: ");
                status.append(m.as_str());
                self.status = status;
            },
        }
        assert(self.tabs@ =~= old(self).tabs@.update(index as int, self.tabs@[index as int]));
    }
}


/// The form with one field changed.
pub open spec fn with_field(c: Config, f: Field, v: String) -> Config {
    match f {
        Field::Name => Config { name: v, ..c },
        Field::Path => Config { path: v, ..c },
        Field::Host => Config { host: v, ..c },
        Field::Port => Config { port: v, ..c },
        Field::Database => Config { database: v, ..c },
        Field::User => Config { user: v, ..c },
        Field::Password => Config { password: v, ..c },
    }
}

/// The form of a new connection (`Config::default()`).
pub open spec fn fresh_form(c: Config) -> bool {
    &&& c.name@ == ""@
    &&& c.driver == Driver::Sqlite
    &&& c.path@ == ":memory:"@
    &&& c.host@ == "localhost"@
    &&& c.port@ == ""@
    &&& c.database@ == ""@
    &&& c.user@ == ""@
    &&& c.password@ == ""@
    &&& c.tls
    &&& c.tls_verify
    &&& c.remember_password
}

impl Session {
    /// The session an event finds: any event but a delete press withdraws a
    /// pending delete confirmation.
    pub open spec fn before(old: Session, event: Event) -> Session {
        if event is DeleteConnection {
            old
        } else {
            Session { pending_delete: None, ..old }
        }
    }

    /// What one event does to the session and which effects it asks for.
    pub open spec fn step(old: Session, new: Session, effects: Seq<Effect>, event: Event) -> bool {
        Session::dispatch(Session::before(old, event), new, effects, event)
    }

    /// What each event does, once a pending delete has been withdrawn.
    pub open spec fn dispatch(s: Session, new: Session, effects: Seq<Effect>, event: Event) -> bool {
        match event {
            Event::Noop | Event::EditorCommand => new == s && effects.len() == 0,
            Event::Driver(d) => {
                &&& new.form.port@ == default_port(d)
                &&& new == (Session { form: Config { driver: d, port: new.form.port, ..s.form }, ..s })
                &&& effects.len() == 0
            },
            Event::Field(f, v) => new == (Session { form: with_field(s.form, f, v), ..s }) && effects.len() == 0,
            Event::Tls(b) => new == (Session { form: Config { tls: b, ..s.form }, ..s }) && effects.len() == 0,
            Event::TlsVerify(b) => new == (Session { form: Config { tls_verify: b, ..s.form }, ..s })
                && effects.len() == 0,
            Event::RememberPassword(b) => new == (Session {
                form: Config { remember_password: b, ..s.form },
                ..s
            }) && effects.len() == 0,
            Event::NewConnection => {
                &&& fresh_form(new.form)
                &&& Session::opened_form_window(
                    Session { form: new.form, editing_profile: None, form_error: None, ..s },
                    new,
                    effects,
                )
            },
            Event::EditConnection(id) => Session::edit_requested(s, new, effects, id),
            Event::CloseConnectionForm => Session::form_closed(s, new, effects),
            Event::SaveProfile => Session::saved_profile(s, new, effects),
            Event::ConnectProfile => Session::connect_started(s, new, effects),
            Event::Connected(id, Ok(catalog)) => Session::connection_ready(s, new, effects, id, catalog),
            Event::Connected(id, Err(e)) => Session::connection_failed(s, new, effects, id, e),
            Event::SelectConnection(id, now) => Session::connection_clicked(s, new, effects, id, now),
            Event::PasswordLoaded(id, PasswordUse::Edit, p) => Session::edit_opened(s, new, effects, id, p),
            Event::PasswordLoaded(id, PasswordUse::Connect, p) => Session::connect_from_tree(s, new, effects, id, p),
            Event::ToggleExpanded(key) => Session::toggled(s, new, key@) && effects.len() == 0,
            Event::Disconnect => Session::disconnected(s, new, effects),
            Event::DeleteConnection => Session::delete_pressed(s, new, effects),
            Event::Refresh => Session::refresh_started(s, new, effects),
            Event::CatalogRefreshed(id, r) => Session::catalog_arrived(s, new, id, r) && effects.len() == 0,
            Event::NewQuery => Session::added_tab(s, new, effects, "Consulta"@, Seq::empty(), s.selected_connection),
            Event::SelectTab(i) => Session::selected_tab(s, new, i) && effects.len() == 0,
            Event::CloseTab(i) => Session::closed_tab(s, new, effects, i),
            Event::Run(sql) => Session::run_requested(s, new, effects, sql),
            Event::Preview(id, object) => Session::preview_opened(s, new, effects, id, object),
            Event::Completed(i, id, outcome) => Session::run_finished(s, new, i, id, outcome) && effects.len() == 0,
            Event::CopyResults => {
                &&& new == s
                &&& effects.len() == 1
                &&& effects[0] matches Effect::CopyToClipboard(t) && t@ == result_text(s.tabs@[s.selected as int].result)
            },
            Event::ToggleExplorer => new == (Session { show_explorer: !s.show_explorer, ..s }) && effects.len() == 0,
            Event::ToggleTheme => new == (Session { dark: !s.dark, ..s }) && effects.len() == 0,
            Event::About => new == (Session { about: !s.about, ..s }) && effects.len() == 0,
            Event::CheckForUpdates => {
                &&& new.status@ == "Buscando actualizaciones…"@
                &&& new == (Session { status: new.status, ..s })
                &&& effects == seq![Effect::CheckUpdates]
            },
            Event::UpdateChecked(Ok(Some(info))) => {
                &&& new.status@ == "Versión "@ + version_text(info.version) + " disponible."@
                &&& new == (Session { status: new.status, update_available: Some(info), ..s })
                &&& effects.len() == 0
            },
            Event::UpdateChecked(Ok(None)) => {
                &&& new.status@ == "Ya tenés la última versión."@
                &&& new == (Session { status: new.status, ..s })
                &&& effects.len() == 0
            },
            Event::UpdateChecked(Err(e)) => {
                &&& new.status@ == "No se pudo comprobar actualizaciones: "@ + e@
                &&& new == (Session { status: new.status, ..s })
                &&& effects.len() == 0
            },
            Event::InstallUpdate => match s.update_available {
                Some(info) => {
                    &&& new.status@ == "Descargando actualización…"@
                    &&& new == (Session { status: new.status, updating: true, ..s })
                    &&& effects == seq![Effect::DownloadUpdate(info.download_url)]
                },
                None => new == s && effects.len() == 0,
            },
            Event::UpdateDownloaded(Ok(())) => {
                &&& new.status@ == "Instalando actualización…"@
                &&& new == (Session { status: new.status, ..s })
                &&& effects == seq![Effect::ApplyUpdate]
            },
            Event::UpdateDownloaded(Err(e)) => {
                &&& new.status@ == "Error al descargar la actualización: "@ + e@
                &&& new == (Session { status: new.status, updating: false, ..s })
                &&& effects.len() == 0
            },
            Event::UpdateApplied(Ok(())) => new == s && effects == seq![Effect::Restart, Effect::Exit],
            Event::UpdateApplied(Err(e)) => {
                &&& new.status@ == "Error al instalar la actualización: "@ + e@
                &&& new == (Session { status: new.status, updating: false, ..s })
                &&& effects.len() == 0
            },
            Event::DismissUpdateBanner => new == (Session { update_available: None, ..s }) && effects.len() == 0,
            Event::Exit => new == s && effects == seq![Effect::Exit],
            Event::WindowClosed(w) => if s.main_window == Some(w) {
                new == s && effects == seq![Effect::Exit]
            } else if s.connection_window == Some(w) {
                &&& new == (Session { connection_window: None, editing_profile: None, form_error: None, ..s })
                &&& effects.len() == 0
            } else {
                new == s && effects.len() == 0
            },
            Event::TitleBarPressed(w, now) => Session::title_pressed(s, new, effects, w, now),
            Event::Minimize(w) => new == s && effects == seq![Effect::MinimizeWindow(w)],
            Event::ToggleMaximize(w) => new == (Session { main_maximized: !s.main_maximized, ..s })
                && effects == seq![Effect::ToggleMaximizeWindow(w)],
        }
    }
}

fn one(e: Effect) -> (v: Vec<Effect>)
    ensures
        v@ == seq![e],
{
    let mut v: Vec<Effect> = Vec::new();
    v.push(e);
    assert(v@ =~= seq![e]);
    v
}

impl Session {
    fn set_field(&mut self, f: Field, v: String)
        ensures
            *final(self) == (Session { form: with_field(old(self).form, f, v), ..*old(self) }),
    {
        match f {
            Field::Name => self.form.name = v,
            Field::Path => self.form.path = v,
            Field::Host => self.form.host = v,
            Field::Port => self.form.port = v,
            Field::Database => self.form.database = v,
            Field::User => self.form.user = v,
            Field::Password => self.form.password = v,
        }
    }

    fn new_connection(&mut self) -> (effects: Vec<Effect>)
        ensures
            fresh_form(final(self).form),
            Session::opened_form_window(
                Session { form: final(self).form, editing_profile: None, form_error: None, ..*old(self) },
                *final(self),
                effects@,
            ),
    {
        self.form = Config::default();
        self.editing_profile = None;
        self.form_error = None;
        self.open_connection_window()
    }

    fn update_checked(&mut self, outcome: Result<Option<UpdateInfo>, String>)
        ensures
            match outcome {
                Ok(Some(info)) => {
                    &&& final(self).status@ == "Versión "@ + version_text(info.version) + " disponible."@
                    &&& *final(self) == (Session { status: final(self).status, update_available: Some(info), ..*old(self) })
                },
                Ok(None) => {
                    &&& final(self).status@ == "Ya tenés la última versión."@
                    &&& *final(self) == (Session { status: final(self).status, ..*old(self) })
                },
                Err(e) => {
                    &&& final(self).status@ == "No se pudo comprobar actualizaciones: "@ + e@
                    &&& *final(self) == (Session { status: final(self).status, ..*old(self) })
                },
            },
    {
        match outcome {
            Ok(Some(info)) => {
                let mut status = String::from_str("Versión ");
                let v = info.version.to_text();
                status.append(v.as_str());
                status.append(" disponible.");
                self.status = status;
                self.update_available = Some(info);
            },
            Ok(None) => {
                self.status = String::from_str("Ya tenés la última versión.");
            },
            Err(e) => {
                let mut status = String::from_str("No se pudo comprobar actualizaciones: ");
                status.append(e.as_str());
                self.status = status;
            },
        }
    }

    fn report_failure(&mut self, prefix: &str, e: String)
        ensures
            final(self).status@ == prefix@ + e@,
            *final(self) == (Session { status: final(self).status, updating: false, ..*old(self) }),
    {
        let mut status = String::from_str(prefix);
        status.append(e.as_str());
        self.status = status;
        self.updating = false;
    }

    /// A press on a title bar: a single press drags the window; a double
    /// press on the main window maximizes or restores it.
    pub open spec fn title_pressed(s: Session, new: Session, effects: Seq<Effect>, w: u64, now: u64) -> bool {
        let double = s.title_last_click == Some(w) && match s.title_last_click_at {
            Some(before) => within_double_click(now, before),
            None => false,
        };
        let t = Session { title_last_click: Some(w), title_last_click_at: Some(now), ..s };
        if !double {
            new == t && effects == seq![Effect::DragWindow(w)]
        } else if s.main_window == Some(w) {
            new == (Session { main_maximized: !s.main_maximized, ..t }) && effects == seq![
                Effect::ToggleMaximizeWindow(w),
            ]
        } else {
            new == t && effects.len() == 0
        }
    }

    fn title_bar_pressed(&mut self, w: u64, now: u64) -> (effects: Vec<Effect>)
        ensures
            Session::title_pressed(*old(self), *final(self), effects@, w, now),
    {
        let double = self.title_last_click == Some(w) && match self.title_last_click_at {
            Some(before) => now < before || now - before < DOUBLE_CLICK_MS,
            None => false,
        };
        self.title_last_click = Some(w);
        self.title_last_click_at = Some(now);
        if !double {
            return one(Effect::DragWindow(w));
        }
        if self.main_window == Some(w) {
            self.main_maximized = !self.main_maximized;
            return one(Effect::ToggleMaximizeWindow(w));
        }
        Vec::new()
    }
}


impl Session {
    fn update_form(&mut self, event: Event) -> (effects: Vec<Effect>)
        requires
            old(self).wf(),
            event is Noop || event is EditorCommand || event is Driver || event is Field || event is Tls
                || event is TlsVerify || event is RememberPassword || event is NewConnection
                || event is EditConnection || event is CloseConnectionForm || event is SaveProfile
                || event is ConnectProfile || event is PasswordLoaded,
            (event is SaveProfile || event is ConnectProfile) && old(self).editing_profile is None
                ==> old(self).next_id < u64::MAX,
        ensures
            Session::dispatch(*old(self), *final(self), effects@, event),
            final(self).wf(),
    {
        match event {
            Event::Driver(d) => {
                self.form.driver = d;
                self.form.port = String::from_str(d.port());
                Vec::new()
            },
            Event::Field(f, v) => {
                self.set_field(f, v);
                Vec::new()
            },
            Event::Tls(b) => {
                self.form.tls = b;
                Vec::new()
            },
            Event::TlsVerify(b) => {
                self.form.tls_verify = b;
                Vec::new()
            },
            Event::RememberPassword(b) => {
                self.form.remember_password = b;
                Vec::new()
            },
            Event::NewConnection => self.new_connection(),
            Event::EditConnection(id) => self.edit_connection(id),
            Event::CloseConnectionForm => self.close_connection_form(),
            Event::SaveProfile => self.save_profile(),
            Event::ConnectProfile => self.connect_profile(),
            Event::PasswordLoaded(id, PasswordUse::Edit, p) => self.edit_with(id, p),
            Event::PasswordLoaded(id, PasswordUse::Connect, p) => self.connect_with(id, p),
            _ => Vec::new(),
        }
    }

    fn update_connections(&mut self, event: Event) -> (effects: Vec<Effect>)
        requires
            old(self).wf(),
            event is Connected || event is SelectConnection || event is ToggleExpanded || event is Disconnect
                || event is DeleteConnection || event is Refresh || event is CatalogRefreshed,
            old(self).tabs@.len() + 1 < usize::MAX,
        ensures
            Session::dispatch(*old(self), *final(self), effects@, event),
            final(self).wf(),
    {
        match event {
            Event::Connected(id, Ok(catalog)) => self.connected_ok(id, catalog),
            Event::Connected(id, Err(e)) => self.connected_err(id, e),
            Event::SelectConnection(id, now) => self.select_connection(id, now),
            Event::ToggleExpanded(key) => {
                self.toggle_expanded(key);
                Vec::new()
            },
            Event::Disconnect => self.disconnect(),
            Event::DeleteConnection => self.delete_connection(),
            Event::Refresh => self.refresh(),
            Event::CatalogRefreshed(id, r) => {
                self.catalog_refreshed(id, r);
                Vec::new()
            },
            _ => Vec::new(),
        }
    }

    fn update_tabs(&mut self, event: Event) -> (effects: Vec<Effect>)
        requires
            event is NewQuery || event is SelectTab || event is CloseTab || event is Run || event is Preview
                || event is Completed || event is CopyResults,
            old(self).wf(),
            old(self).tabs@.len() + 1 < usize::MAX,
        ensures
            Session::dispatch(*old(self), *final(self), effects@, event),
            final(self).wf(),
    {
        match event {
            Event::NewQuery => {
                let c = self.selected_connection;
                let effects = self.add_tab("Consulta", String::new(), c);
                effects
            },
            Event::SelectTab(i) => {
                self.select_tab(i);
                Vec::new()
            },
            Event::CloseTab(i) => self.close_tab(i),
            Event::Run(sql) => self.run_query(sql),
            Event::Preview(id, object) => self.preview(id, object),
            Event::Completed(i, id, outcome) => {
                self.completed(i, id, outcome);
                Vec::new()
            },
            Event::CopyResults => one(Effect::CopyToClipboard(copy_text(&self.tabs[self.selected].result))),
            _ => Vec::new(),
        }
    }

    fn update_shell(&mut self, event: Event) -> (effects: Vec<Effect>)
        requires
            old(self).wf(),
            event is ToggleExplorer || event is ToggleTheme || event is About || event is CheckForUpdates
                || event is UpdateChecked || event is InstallUpdate || event is UpdateDownloaded
                || event is UpdateApplied || event is DismissUpdateBanner || event is Exit
                || event is WindowClosed || event is TitleBarPressed || event is Minimize
                || event is ToggleMaximize,
        ensures
            Session::dispatch(*old(self), *final(self), effects@, event),
            final(self).wf(),
    {
        match event {
            Event::ToggleExplorer => {
                self.show_explorer = !self.show_explorer;
                Vec::new()
            },
            Event::ToggleTheme => {
                self.dark = !self.dark;
                Vec::new()
            },
            Event::About => {
                self.about = !self.about;
                Vec::new()
            },
            Event::CheckForUpdates => {
                self.status = String::from_str("Buscando actualizaciones…");
                one(Effect::CheckUpdates)
            },
            Event::UpdateChecked(outcome) => {
                self.update_checked(outcome);
                Vec::new()
            },
            Event::InstallUpdate => match &self.update_available {
                Some(info) => {
                    let url = info.download_url.clone();
                    self.updating = true;
                    self.status = String::from_str("Descargando actualización…");
                    one(Effect::DownloadUpdate(url))
                },
                None => Vec::new(),
            },
            Event::UpdateDownloaded(Ok(())) => {
                self.status = String::from_str("Instalando actualización…");
                one(Effect::ApplyUpdate)
            },
            Event::UpdateDownloaded(Err(e)) => {
                self.report_failure("Error al descargar la actualización: ", e);
                Vec::new()
            },
            Event::UpdateApplied(Ok(())) => {
                let mut effects = one(Effect::Restart);
                effects.push(Effect::Exit);
                assert(effects@ =~= seq![Effect::Restart, Effect::Exit]);
                effects
            },
            Event::UpdateApplied(Err(e)) => {
                self.report_failure("Error al instalar la actualización: ", e);
                Vec::new()
            },
            Event::DismissUpdateBanner => {
                self.update_available = None;
                Vec::new()
            },
            Event::Exit => one(Effect::Exit),
            Event::WindowClosed(w) => {
                if self.main_window == Some(w) {
                    return one(Effect::Exit);
                }
                if self.connection_window == Some(w) {
                    self.connection_window = None;
                    self.editing_profile = None;
                    self.form_error = None;
                }
                Vec::new()
            },
            Event::TitleBarPressed(w, now) => self.title_bar_pressed(w, now),
            Event::Minimize(w) => one(Effect::MinimizeWindow(w)),
            Event::ToggleMaximize(w) => {
                self.main_maximized = !self.main_maximized;
                one(Effect::ToggleMaximizeWindow(w))
            },
            _ => Vec::new(),
        }
    }

    /// Takes one event and answers with the effects the shell must carry
    /// out, in order. The tabs stay non-empty with one of them selected.
    pub fn update(&mut self, event: Event) -> (effects: Vec<Effect>)
        requires
            old(self).wf(),
            old(self).tabs@.len() + 1 < usize::MAX,
            (event is SaveProfile || event is ConnectProfile) && old(self).editing_profile is None
                ==> old(self).next_id < u64::MAX,
        ensures
            Session::step(*old(self), *final(self), effects@, event),
            final(self).wf(),
    {
        let group = event_group(&event);
        if group != 3 {
            self.pending_delete = None;
        }
        if group == 1 {
            self.update_form(event)
        } else if group == 2 || group == 3 {
            self.update_connections(event)
        } else if group == 4 {
            self.update_tabs(event)
        } else {
            self.update_shell(event)
        }
    }
}

/// Which part of the session an event concerns: the connection form (1),
/// the saved connections (2, and 3 for a delete press), the tabs (4) or the
/// window and the application (5).
fn event_group(event: &Event) -> (group: u8)
    ensures
        group == 1 <==> (event is Noop || event is EditorCommand || event is Driver || event is Field
            || event is Tls || event is TlsVerify || event is RememberPassword || event is NewConnection
            || event is EditConnection || event is CloseConnectionForm || event is SaveProfile
            || event is ConnectProfile || event is PasswordLoaded),
        group == 2 <==> (event is Connected || event is SelectConnection || event is ToggleExpanded
            || event is Disconnect || event is Refresh || event is CatalogRefreshed),
        group == 3 <==> event is DeleteConnection,
        group == 4 <==> (event is NewQuery || event is SelectTab || event is CloseTab || event is Run
            || event is Preview || event is Completed || event is CopyResults),
        group == 5 <==> (event is ToggleExplorer || event is ToggleTheme || event is About
            || event is CheckForUpdates || event is UpdateChecked || event is InstallUpdate
            || event is UpdateDownloaded || event is UpdateApplied || event is DismissUpdateBanner
            || event is Exit || event is WindowClosed || event is TitleBarPressed || event is Minimize
            || event is ToggleMaximize),
{
    match event {
        Event::Noop | Event::EditorCommand | Event::Driver(_) | Event::Field(..) | Event::Tls(_)
        | Event::TlsVerify(_) | Event::RememberPassword(_) | Event::NewConnection
        | Event::EditConnection(_) | Event::CloseConnectionForm | Event::SaveProfile
        | Event::ConnectProfile | Event::PasswordLoaded(..) => 1,
        Event::Connected(..) | Event::SelectConnection(..) | Event::ToggleExpanded(_)
        | Event::Disconnect | Event::Refresh | Event::CatalogRefreshed(..) => 2,
        Event::DeleteConnection => 3,
        Event::NewQuery | Event::SelectTab(_) | Event::CloseTab(_) | Event::Run(_) | Event::Preview(..)
        | Event::Completed(..) | Event::CopyResults => 4,
        _ => 5,
    }
}

} // verus!
