//! What holds of the session across events.
use vstd::prelude::*;
use crate::db::QueryResult;
use crate::drivers::{object_preview, CatalogObject, Config, Driver};
use crate::session::{
    close_effects, entry_index, node_key, has_tab_for, is_connected, lemma_entry_index_bounds, open_keys, password_sync,
    persist_effects, run_status, selection_after_close, upserted, ConnState, ConnectionEntry, Effect, Event, PasswordUse,
    Session, Tab,
};

verus! {

/// Deleting takes two presses: the first only asks for a confirmation and
/// changes no saved connection; a second press right after removes the
/// selected connection.
pub proof fn law_delete_asks_first(
    s: Session,
    s1: Session,
    e1: Seq<Effect>,
    s2: Session,
    e2: Seq<Effect>,
    id: u64,
)
    requires
        s.selected_connection == Some(id),
        s.has(id),
        s.pending_delete != Some(id),
        Session::step(s, s1, e1, Event::DeleteConnection),
        Session::step(s1, s2, e2, Event::DeleteConnection),
    ensures
        s1.connections == s.connections,
        s1.pending_delete == Some(id),
        e1.len() == 0,
        s2.connections@ == s.connections@.remove(entry_index(s.connections@, id)),
        s2.selected_connection is None,
        s2.pending_delete is None,
        s.keyring_enabled ==> e2.contains(Effect::DeletePassword(id)),
{
    lemma_entry_index_bounds(s.connections@, id);
    if s.keyring_enabled {
        let p: int = if s.persist { 1 } else { 0 };
        assert(e2.skip(p)[0] == Effect::DeletePassword(id));
        assert(e2[p] == Effect::DeletePassword(id));
    }
}

/// Any event but a delete press withdraws a pending delete confirmation.
pub proof fn law_other_events_cancel_delete(s: Session, s1: Session, e: Seq<Effect>, event: Event)
    requires
        !(event is DeleteConnection),
        Session::step(s, s1, e, event),
    ensures
        s1.pending_delete is None,
{
}

/// Disconnecting the selected connection leaves every other saved
/// connection as it was, and the tabs of other connections too.
pub proof fn law_disconnect_keeps_others(s: Session, s1: Session, e: Seq<Effect>, id: u64)
    requires
        s.selected_connection == Some(id),
        Session::step(s, s1, e, Event::Disconnect),
    ensures
        s1.connections@.len() == s.connections@.len(),
        forall|j: int|
            0 <= j < s.connections@.len() && j != entry_index(s.connections@, id) ==> #[trigger] s1.connections@[j]
                == s.connections@[j],
        s1.tabs@.len() == s.tabs@.len(),
        forall|k: int|
            0 <= k < s.tabs@.len() && (#[trigger] s.tabs@[k]).connection_id != Some(id) ==> s1.tabs@[k]
                == s.tabs@[k],
{
    lemma_entry_index_bounds(s.connections@, id);
}

/// The last remaining tab cannot be closed.
pub proof fn law_last_tab_stays(s: Session, s1: Session, e: Seq<Effect>, index: usize)
    requires
        s.tabs@.len() == 1,
        Session::step(s, s1, e, Event::CloseTab(index)),
    ensures
        s1.tabs == s.tabs,
        s1.selected == s.selected,
        e.len() == 0,
{
}

/// Toggling a tree node twice leaves the open nodes as they were.
pub proof fn law_toggle_twice(
    s: Session,
    s1: Session,
    e1: Seq<Effect>,
    s2: Session,
    e2: Seq<Effect>,
    k1: String,
    k2: String,
)
    requires
        k1@ == k2@,
        Session::step(s, s1, e1, Event::ToggleExpanded(k1)),
        Session::step(s1, s2, e2, Event::ToggleExpanded(k2)),
    ensures
        open_keys(s2.expanded@) == open_keys(s.expanded@),
{
    let k = k1@;
    if open_keys(s.expanded@).contains(k) {
        assert(open_keys(s2.expanded@) =~= open_keys(s.expanded@));
    } else {
        assert(open_keys(s2.expanded@) =~= open_keys(s.expanded@));
    }
}

/// A second "new connection" while the form's window is open focuses that
/// window instead of opening another.
pub proof fn law_one_form_window(
    s: Session,
    s1: Session,
    e1: Seq<Effect>,
    s2: Session,
    e2: Seq<Effect>,
)
    requires
        Session::step(s, s1, e1, Event::NewConnection),
        Session::step(s1, s2, e2, Event::NewConnection),
    ensures
        s1.connection_window is Some,
        s1.main_window == s.main_window,
        s2.main_window == s.main_window,
        s2.connection_window == s1.connection_window,
        e2 == seq![Effect::FocusWindow(s1.connection_window->Some_0)],
{
}


/// Closing a tab other than the selected one keeps the same tab selected.
pub proof fn law_close_keeps_selected_tab(s: Session, s1: Session, e: Seq<Effect>, index: usize)
    requires
        s.wf(),
        s.tabs@.len() > 1,
        index < s.tabs@.len(),
        index != s.selected,
        Session::step(s, s1, e, Event::CloseTab(index)),
    ensures
        s1.wf(),
        s1.tabs@[s1.selected as int] == s.tabs@[s.selected as int],
{
    let t = Session::before(s, Event::CloseTab(index));
    assert(Session::closed_tab(t, s1, e, index));
    assert(t.tabs == s.tabs && t.selected == s.selected);
    let count: usize = s.tabs.len();
    assert(count == s.tabs@.len());
    let remaining = (count - 1) as usize;
    if s.selected > index {
        assert(selection_after_close(s.selected, index, count) == s.selected - 1);
        assert(s1.tabs@[s.selected - 1] == s.tabs@[s.selected as int]);
    } else {
        assert(s.selected < remaining);
        assert(selection_after_close(s.selected, index, count) == s.selected);
    }
}

/// Running the current tab leaves every other tab as it was, so tabs on
/// different connections run side by side.
pub proof fn law_run_touches_only_current_tab(s: Session, s1: Session, e: Seq<Effect>, sql: String)
    requires
        s.wf(),
        Session::step(s, s1, e, Event::Run(sql)),
    ensures
        s1.tabs@.len() == s.tabs@.len(),
        forall|k: int| 0 <= k < s.tabs@.len() && k != s.selected ==> #[trigger] s1.tabs@[k] == s.tabs@[k],
{
}


/// A connection that fails to open leaves every other saved connection,
/// and every tab, as it was.
pub proof fn law_failure_keeps_others(s: Session, s1: Session, e: Seq<Effect>, id: u64, error: String)
    requires
        Session::step(s, s1, e, Event::Connected(id, Err(error))),
    ensures
        s1.connections@.len() == s.connections@.len(),
        forall|j: int|
            0 <= j < s.connections@.len() && j != entry_index(s.connections@, id) ==> #[trigger] s1.connections@[j]
                == s.connections@[j],
        s1.tabs == s.tabs,
        e.len() == 0,
{
    lemma_entry_index_bounds(s.connections@, id);
}

/// A refreshed catalog reaches only its own connection.
pub proof fn law_refresh_keeps_others(
    s: Session,
    s1: Session,
    e: Seq<Effect>,
    id: u64,
    result: Result<Vec<CatalogObject>, String>,
)
    requires
        Session::step(s, s1, e, Event::CatalogRefreshed(id, result)),
    ensures
        s1.connections@.len() == s.connections@.len(),
        forall|j: int|
            0 <= j < s.connections@.len() && j != entry_index(s.connections@, id) ==> #[trigger] s1.connections@[j]
                == s.connections@[j],
        s1.tabs == s.tabs,
{
    lemma_entry_index_bounds(s.connections@, id);
}

/// Connecting from the form hands the typed password to the connection
/// only: the form forgets it.
pub proof fn law_connect_forgets_password(s: Session, s1: Session, e: Seq<Effect>)
    requires
        Session::step(s, s1, e, Event::ConnectProfile),
    ensures
        s1.form.password@.len() == 0,
        e.last() == Effect::Connect(s.save_id(), s.form),
{
}

/// A query that succeeded keeps its result even when the catalog cannot
/// be read again afterwards; the status reports both.
pub proof fn law_results_survive_catalog_error(
    s: Session,
    s1: Session,
    e: Seq<Effect>,
    index: usize,
    id: u64,
    result: QueryResult,
    error: String,
    elapsed: u64,
)
    requires
        index < s.tabs@.len(),
        Session::step(s, s1, e, Event::Completed(index, id, Ok((result, Err(error), elapsed)))),
    ensures
        s1.tabs@[index as int].result == result,
        !s1.tabs@[index as int].running,
        s1.connections@ == s.connections@,
        s1.status@ == run_status(result, elapsed) + " · No se pudo actualizar el catálogo: "@ + error@,
{
}


/// An effect on the shell's editors, which it keeps one per tab.
pub open spec fn is_editor_op(x: Effect) -> bool {
    x is OpenEditor || x is CloseEditor
}

/// None of the effects touches an editor.
pub open spec fn no_editor_ops(e: Seq<Effect>) -> bool {
    forall|k: int| 0 <= k < e.len() ==> !is_editor_op(#[trigger] e[k])
}

/// Exactly one effect touches an editor, and it opens one.
pub open spec fn opens_one_editor(e: Seq<Effect>) -> bool {
    exists|k: int|
        0 <= k < e.len() && (#[trigger] e[k]) is OpenEditor && forall|j: int|
            0 <= j < e.len() && j != k ==> !is_editor_op(#[trigger] e[j])
}

/// How an event may change the tabs, with the editor effects that go with
/// it: the tabs stay as many and no editor is touched; or one tab is added
/// at the end and exactly one editor is opened; or the tab at `i` is
/// removed and its editor, alone, is closed.
pub open spec fn editors_follow(old: Seq<Tab>, new: Seq<Tab>, e: Seq<Effect>) -> bool {
    ||| new.len() == old.len() && no_editor_ops(e)
    ||| new.len() == old.len() + 1 && new.drop_last() == old && opens_one_editor(e)
    ||| exists|i: int| 0 <= i < old.len() && new == old.remove(i) && e == seq![Effect::CloseEditor(i as usize)]
}

proof fn lemma_no_editor_split(e: Seq<Effect>, a: int)
    requires
        0 <= a <= e.len(),
        no_editor_ops(e.take(a)),
        no_editor_ops(e.skip(a)),
    ensures
        no_editor_ops(e),
{
    assert forall|k: int| 0 <= k < e.len() implies !is_editor_op(#[trigger] e[k]) by {
        if k < a {
            assert(e.take(a)[k] == e[k]);
        } else {
            assert(e.skip(a)[k - a] == e[k]);
        }
    }
}

proof fn lemma_persist_no_editor(persist: bool, next_id: u64, connections: Seq<ConnectionEntry>, e: Seq<Effect>)
    requires
        persist_effects(persist, next_id, connections, e),
    ensures
        no_editor_ops(e),
{
}

proof fn lemma_form_window_no_editor(old: Session, new: Session, e: Seq<Effect>)
    requires
        Session::opened_form_window(old, new, e),
    ensures
        no_editor_ops(e),
        new.tabs == old.tabs,
{
}


proof fn lemma_no_editor_parts(e: Seq<Effect>, a: int, b: int)
    requires
        0 <= a <= b <= e.len(),
        no_editor_ops(e.take(a)),
        no_editor_ops(e.subrange(a, b)),
        no_editor_ops(e.skip(b)),
    ensures
        no_editor_ops(e),
{
    assert forall|k: int| 0 <= k < e.len() implies !is_editor_op(#[trigger] e[k]) by {
        if k < a {
            assert(e.take(a)[k] == e[k]);
        } else if k < b {
            assert(e.subrange(a, b)[k - a] == e[k]);
        } else {
            assert(e.skip(b)[k - b] == e[k]);
        }
    }
}

proof fn lemma_saved_profile_editors(s: Session, s1: Session, e: Seq<Effect>)
    requires
        Session::saved_profile(s, s1, e),
    ensures
        s1.tabs == s.tabs,
        no_editor_ops(e),
{
    let id = s.save_id();
    let sync = password_sync(s.keyring_enabled, s.form.remember_password, id, s.form.password);
    let p: int = if s.persist { 1 } else { 0 };
    lemma_persist_no_editor(s1.persist, s1.next_id, s1.connections@, e.subrange(sync.len() as int, sync.len() + p));
    lemma_no_editor_parts(e, sync.len() as int, sync.len() + p);
}

proof fn lemma_connect_started_editors(s: Session, s1: Session, e: Seq<Effect>)
    requires
        Session::connect_started(s, s1, e),
    ensures
        s1.tabs == s.tabs,
        no_editor_ops(e),
{
    let id = s.save_id();
    let i = entry_index(s.connections@, id);
    let release = if i < s.connections@.len() && is_connected(s.connections@[i].state) {
        seq![Effect::Release(id)]
    } else {
        seq![]
    };
    let sync = password_sync(s.keyring_enabled, s.form.remember_password, id, s.form.password);
    let p: int = if s.persist { 1 } else { 0 };
    let a = release.len() as int;
    let b = a + sync.len();
    lemma_persist_no_editor(s1.persist, s1.next_id, s1.connections@, e.subrange(b, b + p));
    assert forall|k: int| 0 <= k < e.len() implies !is_editor_op(#[trigger] e[k]) by {
        if k < a {
            assert(e.take(a)[k] == e[k]);
        } else if k < b {
            assert(e.subrange(a, b)[k - a] == e[k]);
        } else if k < b + p {
            assert(e.subrange(b, b + p)[k - b] == e[k]);
        } else {
            assert(k == e.len() - 1);
        }
    }
}

proof fn lemma_connect_from_tree_editors(s: Session, s1: Session, e: Seq<Effect>, id: u64, password: Option<String>)
    requires
        Session::connect_from_tree(s, s1, e, id, password),
    ensures
        s1.tabs == s.tabs,
        no_editor_ops(e),
{
    let i = entry_index(s.connections@, id);
    if !(!s.has(id) || s.connections@[i].state is Connected || s.connections@[i].state is Connecting) {
        let p = s.connections@[i].profile;
        if !(p.driver == Driver::Sqlite || password is Some) {
            let mid = Session { form: s1.form, editing_profile: Some(id), form_error: None, ..s };
            lemma_form_window_no_editor(mid, s1, e);
        }
    }
}

proof fn lemma_delete_editors(s: Session, s1: Session, e: Seq<Effect>)
    requires
        Session::delete_pressed(s, s1, e),
    ensures
        s1.tabs@.len() == s.tabs@.len(),
        no_editor_ops(e),
{
    match s.selected_connection {
        None => {},
        Some(id) => if s.pending_delete == Some(id) && s.has(id) {
            let p: int = if s.persist { 1 } else { 0 };
            lemma_persist_no_editor(s1.persist, s1.next_id, s1.connections@, e.take(p));
            lemma_no_editor_split(e, p);
        },
    }
}

proof fn lemma_ready_editors(s: Session, s1: Session, e: Seq<Effect>, id: u64, catalog: Vec<CatalogObject>)
    requires
        Session::connection_ready(s, s1, e, id, catalog),
    ensures
        editors_follow(s.tabs@, s1.tabs@, e),
{
    if s.has(id) {
        let watching = s.watching(id);
        let close = if watching { close_effects(s.connection_window) } else { seq![] };
        if !has_tab_for(s.tabs@, id) {
            let k = e.len() - 1;
            assert forall|j: int| 0 <= j < e.len() && j != k implies !is_editor_op(#[trigger] e[j]) by {
                assert(e.take(close.len() as int)[j] == e[j]);
            }
            assert(e[k] is OpenEditor);
        }
    }
}


/// The shell keeps one editor per tab, in the tabs' order: every event
/// either leaves the number of tabs alone and touches no editor, or adds
/// one tab at the end and opens exactly one editor, or removes one tab and
/// closes exactly its editor.
pub proof fn law_editors_follow_tabs(s: Session, s1: Session, e: Seq<Effect>, event: Event)
    requires
        s.wf(),
        Session::step(s, s1, e, event),
    ensures
        editors_follow(s.tabs@, s1.tabs@, e),
{
    let t = Session::before(s, event);
    assert(t.tabs == s.tabs);
    match event {
        Event::NewConnection => {
            lemma_form_window_no_editor(Session { form: s1.form, editing_profile: None, form_error: None, ..t }, s1, e);
        },
        Event::EditConnection(id) => {
            if t.has(id) && !t.keyring_enabled {
                lemma_form_window_no_editor(Session { form: s1.form, editing_profile: Some(id), form_error: None, ..t }, s1, e);
            }
        },
        Event::PasswordLoaded(id, PasswordUse::Edit, _) => {
            if t.has(id) {
                lemma_form_window_no_editor(Session { form: s1.form, editing_profile: Some(id), form_error: None, ..t }, s1, e);
            }
        },
        Event::PasswordLoaded(id, PasswordUse::Connect, p) => {
            lemma_connect_from_tree_editors(t, s1, e, id, p);
        },
        Event::SaveProfile => {
            lemma_saved_profile_editors(t, s1, e);
        },
        Event::ConnectProfile => {
            lemma_connect_started_editors(t, s1, e);
        },
        Event::Connected(id, Ok(catalog)) => {
            lemma_ready_editors(t, s1, e, id, catalog);
        },
        Event::SelectConnection(id, now) => {
            let mid = t.clicked(id, now);
            let i = entry_index(t.connections@, id);
            if t.is_double_click(id, now) && !(!t.has(id) || t.connections@[i].state is Connected
                || t.connections@[i].state is Connecting) && !t.keyring_enabled {
                lemma_connect_from_tree_editors(mid, s1, e, id, None);
            }
        },
        Event::DeleteConnection => {
            lemma_delete_editors(t, s1, e);
        },
        Event::NewQuery => {
            assert(e[0] is OpenEditor);
        },
        Event::Preview(id, object) => {
            if t.open_driver(id) is Some {
                assert(e[0] is OpenEditor);
                assert(!is_editor_op(e[1]));
            }
        },
        Event::CloseTab(i) => {
            if t.tabs@.len() > 1 && i < t.tabs@.len() {
                assert(0 <= i < s.tabs@.len() && s1.tabs@ == s.tabs@.remove(i as int) && e == seq![
                    Effect::CloseEditor(i as usize),
                ]);
            }
        },
        _ => {},
    }
}


/// Every saved connection, and the connection being edited, has an id
/// below the next free one.
pub open spec fn ids_fresh(s: Session) -> bool {
    &&& forall|k: int| 0 <= k < s.connections@.len() ==> (#[trigger] s.connections@[k]).id < s.next_id
    &&& (s.editing_profile matches Some(i) ==> i < s.next_id)
}

proof fn lemma_ids_updated(old: Seq<ConnectionEntry>, new: Seq<ConnectionEntry>, next_id: u64)
    requires
        new.len() == old.len(),
        forall|k: int| 0 <= k < old.len() ==> (#[trigger] old[k]).id < next_id,
        forall|k: int| 0 <= k < old.len() ==> #[trigger] new[k].id == old[k].id,
    ensures
        forall|k: int| 0 <= k < new.len() ==> (#[trigger] new[k]).id < next_id,
{
    assert forall|k: int| 0 <= k < new.len() implies (#[trigger] new[k]).id < next_id by {
        assert(new[k].id == old[k].id);
    }
}

proof fn lemma_upserted_ids(old: Seq<ConnectionEntry>, new: Seq<ConnectionEntry>, id: u64, c: Config, st: Option<ConnState>, bound: u64)
    requires
        upserted(old, new, id, c, st),
        forall|k: int| 0 <= k < old.len() ==> (#[trigger] old[k]).id < bound,
        id < bound,
    ensures
        forall|k: int| 0 <= k < new.len() ==> (#[trigger] new[k]).id < bound,
{
    reveal(upserted);
    lemma_entry_index_bounds(old, id);
    assert forall|k: int| 0 <= k < new.len() implies (#[trigger] new[k]).id < bound by {
        if k < old.len() {
            assert(new[k].id == old[k].id);
        }
    }
}

/// New connections never take an id already in use: ids stay below the
/// next free id, which never goes down.
pub proof fn law_ids_stay_fresh(s: Session, s1: Session, e: Seq<Effect>, event: Event)
    requires
        s.wf(),
        ids_fresh(s),
        (event is SaveProfile || event is ConnectProfile) && s.editing_profile is None ==> s.next_id < u64::MAX,
        Session::step(s, s1, e, event),
    ensures
        ids_fresh(s1),
        s1.next_id >= s.next_id,
{
    let t = Session::before(s, event);
    match event {
        Event::SaveProfile => {
            lemma_upserted_ids(t.connections@, s1.connections@, t.save_id(), t.form, None, s1.next_id);
        },
        Event::ConnectProfile => {
            lemma_upserted_ids(
                t.connections@,
                s1.connections@,
                t.save_id(),
                t.form,
                Some(ConnState::Connecting),
                s1.next_id,
            );
        },
        Event::EditConnection(id) => {
            lemma_entry_index_bounds(t.connections@, id);
        },
        Event::PasswordLoaded(id, _, _) => {
            lemma_entry_index_bounds(t.connections@, id);
        },
        Event::SelectConnection(id, _) => {
            lemma_entry_index_bounds(t.connections@, id);
        },
        Event::Connected(id, r) => {
            lemma_entry_index_bounds(t.connections@, id);
            lemma_ids_updated(t.connections@, s1.connections@, s1.next_id);
        },
        Event::CatalogRefreshed(id, _) => {
            lemma_entry_index_bounds(t.connections@, id);
            lemma_ids_updated(t.connections@, s1.connections@, s1.next_id);
        },
        Event::Completed(_, id, _) => {
            lemma_entry_index_bounds(t.connections@, id);
            lemma_ids_updated(t.connections@, s1.connections@, s1.next_id);
        },
        Event::Disconnect => {
            if let Some(id) = t.selected_connection {
                lemma_entry_index_bounds(t.connections@, id);
            }
            lemma_ids_updated(t.connections@, s1.connections@, s1.next_id);
        },
        Event::Refresh => {
            if let Some(id) = t.selected_connection {
                lemma_entry_index_bounds(t.connections@, id);
            }
            lemma_ids_updated(t.connections@, s1.connections@, s1.next_id);
        },
        Event::DeleteConnection => {
            if let Some(id) = t.selected_connection {
                lemma_entry_index_bounds(t.connections@, id);
                let i = entry_index(t.connections@, id);
                if t.pending_delete == Some(id) && t.has(id) {
                    assert forall|k: int| 0 <= k < s1.connections@.len() implies (#[trigger] s1.connections@[k]).id
                        < s1.next_id by {
                        if k < i {
                            assert(s1.connections@[k] == t.connections@[k]);
                        } else {
                            assert(s1.connections@[k] == t.connections@[k + 1]);
                        }
                    }
                }
            }
        },
        _ => {},
    }
}


/// Closing tab `index` removes exactly that tab where more than one is
/// open, keeping a valid selection; otherwise nothing changes.
pub proof fn law_close_tab(s: Session, s1: Session, e: Seq<Effect>, index: usize)
    requires
        s.wf(),
        Session::step(s, s1, e, Event::CloseTab(index)),
    ensures
        s1.wf(),
        s.tabs@.len() > 1 && index < s.tabs@.len() ==> {
            &&& s1.tabs@ == s.tabs@.remove(index as int)
            &&& s1.selected < s.tabs@.len() - 1
            &&& e == seq![Effect::CloseEditor(index)]
        },
        !(s.tabs@.len() > 1 && index < s.tabs@.len()) ==> s1.tabs == s.tabs && s1.selected == s.selected
            && e.len() == 0,
{
    if s.tabs@.len() > 1 && index < s.tabs@.len() {
        let count: usize = s.tabs.len();
        assert(count == s.tabs@.len());
        let remaining = (count - 1) as usize;
        let sel = selection_after_close(s.selected, index, count);
        assert(sel < remaining);
    }
}


/// Opening the connection form's window reuses an open one and never
/// touches the main window.
pub proof fn law_form_window_reused(old: Session, new: Session, e: Seq<Effect>)
    requires
        Session::opened_form_window(old, new, e),
    ensures
        new.connection_window is Some,
        old.connection_window is Some ==> new.connection_window == old.connection_window,
        new.main_window == old.main_window,
{
}


/// A saved SQLite connection that is neither open nor opening connects as
/// soon as it is asked to from the tree, whatever password the credential
/// store had: exactly one effect, connecting it, and it shows as connecting.
pub proof fn law_sqlite_connects_at_once(
    s: Session,
    s1: Session,
    e: Seq<Effect>,
    id: u64,
    password: Option<String>,
)
    requires
        s.has(id),
        s.entry(id).profile.driver == Driver::Sqlite,
        !(s.entry(id).state is Connected),
        !(s.entry(id).state is Connecting),
        Session::step(s, s1, e, Event::PasswordLoaded(id, PasswordUse::Connect, password)),
    ensures
        e.len() == 1,
        e[0] matches Effect::Connect(c, config) && c == id && config.path@ == s.entry(id).profile.path@,
        s1.connections@[entry_index(s.connections@, id)].state is Connecting,
        s1.connection_window == s.connection_window,
{
    lemma_entry_index_bounds(s.connections@, id);
}

/// A double click on a saved SQLite connection that is neither open nor
/// opening connects it: at once where the credential store is not used,
/// after looking up its password otherwise.
pub proof fn law_double_click_connects_sqlite(s: Session, s1: Session, e: Seq<Effect>, id: u64, now: u64)
    requires
        s.has(id),
        s.entry(id).profile.driver == Driver::Sqlite,
        !(s.entry(id).state is Connected),
        !(s.entry(id).state is Connecting),
        s.is_double_click(id, now),
        Session::step(s, s1, e, Event::SelectConnection(id, now)),
    ensures
        s.keyring_enabled ==> e == seq![Effect::LookupPassword(id, PasswordUse::Connect)],
        !s.keyring_enabled ==> {
            &&& e.len() == 1
            &&& e[0] matches Effect::Connect(c, _) && c == id
            &&& s1.connections@[entry_index(s.connections@, id)].state is Connecting
        },
{
    lemma_entry_index_bounds(s.connections@, id);
}


/// A new query tab is bound to the connection selected in the tree, goes
/// last, is selected, and asks for an empty editor.
pub proof fn law_new_query_binds_selection(s: Session, s1: Session, e: Seq<Effect>)
    requires
        Session::step(s, s1, e, Event::NewQuery),
    ensures
        s1.tabs@.len() == s.tabs@.len() + 1,
        s1.tabs@.last().connection_id == s.selected_connection,
        s1.selected == s.tabs@.len(),
        !s1.tabs@.last().running,
        e.len() == 1,
        e[0] matches Effect::OpenEditor(t) && t@.len() == 0,
{
}

/// Previewing an object of an open connection opens a tab bound to that
/// connection, selects it, and runs the object's preview there at once.
pub proof fn law_preview_runs_in_its_own_tab(s: Session, s1: Session, e: Seq<Effect>, id: u64, object: CatalogObject)
    requires
        s.has(id),
        s.entry(id).state is Connected,
        Session::step(s, s1, e, Event::Preview(id, object)),
    ensures
        s1.tabs@.len() == s.tabs@.len() + 1,
        s1.tabs@.last().connection_id == Some(id),
        s1.tabs@.last().running,
        s1.selected == s.tabs@.len(),
        e.len() == 2,
        e[0] matches Effect::OpenEditor(t) && t@ == object_preview(object, s.entry(id).profile.driver),
        e[1] matches Effect::Execute { tab, connection, sql } && tab == s.tabs@.len() && connection == id
            && sql@ == object_preview(object, s.entry(id).profile.driver),
{
}

/// Running the current tab, when its connection is open and it is not
/// already running, runs exactly the editor's text on that tab's own
/// connection and marks the tab running.
pub proof fn law_run_goes_to_the_tab_connection(s: Session, s1: Session, e: Seq<Effect>, sql: String, c: u64)
    requires
        s.wf(),
        s.tabs@[s.selected as int].connection_id == Some(c),
        !s.tabs@[s.selected as int].running,
        exists|k: int| 0 <= k < s.connections@.len() && #[trigger] s.connections@[k].id == c
            && s.connections@[k].state is Connected,
        Session::step(s, s1, e, Event::Run(sql)),
    ensures
        e == seq![Effect::Execute { tab: s.selected, connection: c, sql }],
        s1.tabs@[s.selected as int].running,
        s1.tabs@[s.selected as int].connection_id == Some(c),
{
}

/// A single click on a saved connection selects it and opens or closes its
/// node in the tree, asking for nothing.
pub proof fn law_single_click_toggles_node(s: Session, s1: Session, e: Seq<Effect>, id: u64, now: u64)
    requires
        !s.is_double_click(id, now),
        Session::step(s, s1, e, Event::SelectConnection(id, now)),
    ensures
        s1.selected_connection == Some(id),
        e.len() == 0,
        open_keys(s.expanded@).contains(node_key(id)) ==> !open_keys(s1.expanded@).contains(node_key(id)),
        !open_keys(s.expanded@).contains(node_key(id)) ==> open_keys(s1.expanded@).contains(node_key(id)),
        s1.connections == s.connections,
{
}

/// A connection that opens shows its catalog, opens its node in the tree,
/// and reports it in the status.
pub proof fn law_opened_connection_shows_catalog(
    s: Session,
    s1: Session,
    e: Seq<Effect>,
    id: u64,
    catalog: Vec<CatalogObject>,
)
    requires
        s.has(id),
        Session::step(s, s1, e, Event::Connected(id, Ok(catalog))),
    ensures
        s1.connections@[entry_index(s.connections@, id)].state == (ConnState::Connected { catalog }),
        s1.connections@[entry_index(s.connections@, id)].profile == s.entry(id).profile,
        open_keys(s1.expanded@).contains(node_key(id)),
        s1.status@ == "Conectado a "@ + s.entry(id).profile.name@,
{
    lemma_entry_index_bounds(s.connections@, id);
}

} // verus!
