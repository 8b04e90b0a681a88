//! The application's state and how it answers key presses: which screen
//! is shown, what changes in the store, and what must be done outside
//! (sessions, storage, listings), which it asks for as an effect.
use vstd::prelude::*;
use crate::model::connection::{Connection, ConnectionView};
use crate::model::ids::Timestamp;
use crate::model::store::{index_of_id, sort_by_name, ConnectionStore};
use crate::text::{decimal, owned, push_decimal, push_text};
use crate::ui::browse::{browse_key_spec, BrowseState};
use crate::ui::detail::{detail_key_spec, detail_ok, DetailState};
use crate::ui::editor::{
    connection_texts, editor_key_spec, editor_ok, field_texts, EditorMode, EditorState,
};
use crate::ui::input::{ctrl_held, Key, KeyCode};
use crate::ui::transfer::{screen_ok, transfer_key_spec, TransferAction, TransferScreen};

verus! {

/// What the connection list asks for.
pub enum BrowseAction {
    Nothing,
    Quit,
    ViewDetail(String),
    AddNew,
    Import,
}

/// What the connection details ask for.
pub enum DetailAction {
    Nothing,
    Back,
    Connect(String),
    Edit(String),
    Delete(String),
    SetupKeyAuth(String),
    Transfer(String),
    /// A parameter form opened for the connection: list the options of its
    /// pick-one fields and hand them to it.
    FetchOptions(String),
    RunRemoteAction { conn_id: String, command: String },
}

/// What the connection editor asks for.
pub enum EditorAction {
    Nothing,
    Cancel,
    Save(Connection),
}

/// The screen shown.
pub enum Screen {
    Browse(BrowseState),
    Detail(DetailState),
    Editor(EditorState),
    Transfer(TransferScreen),
}

/// What the application asks to be done outside.
pub enum AppEffect {
    Nothing,
    /// Write the store to storage.
    Save,
    /// Open an interactive session on the connection, then report with `connected`.
    Connect(Connection),
    /// Set up key authentication for the connection, then report with `key_auth_done`.
    SetupKeyAuth(Connection),
    /// Read the SSH configuration, then report with `apply_import`.
    Import,
    /// Build the transfer screen for the connection and show it with `show_transfer`.
    OpenTransfer(Connection),
    /// List the options of the open form's pick-one fields on the connection.
    FetchOptions(Connection),
    /// Run a remote command on the connection.
    RunRemote { conn: Connection, command: String },
    /// Carry out a request of the transfer screen.
    Transfer(TransferAction),
}

/// The application.
pub struct App {
    pub store: ConnectionStore,
    pub screen: Screen,
    pub status_message: Option<String>,
    pub should_quit: bool,
}

/// Whether the screen shown is well formed.
pub open spec fn app_ok(s: App) -> bool {
    match s.screen {
        Screen::Browse(_) => true,
        Screen::Detail(d) => detail_ok(d),
        Screen::Editor(e) => editor_ok(e),
        Screen::Transfer(t) => screen_ok(t),
    }
}

/// A list screen as it is first shown.
pub open spec fn fresh_browse(b: BrowseState) -> bool {
    b.selected == Some(0usize) && b.search.value@.len() == 0 && !b.search_active && !b.grouped && b.filtered_ids@.len() == 0
}

/// A details screen as it is first shown for connection `id`.
pub open spec fn fresh_detail(d: DetailState, id: Seq<char>) -> bool {
    d.connection_id@ == id && !d.confirm_delete && d.overlay is Nothing
}

/// Whether the store has a connection with id `id`.
pub open spec fn has_id(store: Seq<ConnectionView>, id: Seq<char>) -> bool {
    index_of_id(store, id) < store.len()
}

/// The connection with id `id` (meaningful when the store has it).
pub open spec fn with_id(store: Seq<ConnectionView>, id: Seq<char>) -> ConnectionView {
    store[index_of_id(store, id) as int]
}

/// What the application does with what the list asked for.
pub open spec fn after_browse(s: App, b2: BrowseState, ba: BrowseAction, s2: App, e: AppEffect) -> bool {
    &&& s2.store@ == s.store@
    &&& s2.status_message == s.status_message
    &&& match ba {
        BrowseAction::Nothing => e is Nothing && !s2.should_quit && s2.screen == Screen::Browse(b2),
        BrowseAction::Quit => e is Nothing && s2.should_quit && s2.screen == Screen::Browse(b2),
        BrowseAction::ViewDetail(id) => e is Nothing && !s2.should_quit
            && (s2.screen matches Screen::Detail(d) && fresh_detail(d, id@)),
        BrowseAction::AddNew => e is Nothing && !s2.should_quit && (s2.screen matches Screen::Editor(ed)
            && ed.mode == EditorMode::Add && ed.focused == 0 && ed.edited_id is None && ed.edited_created is None
            && field_texts(ed.fields@) == seq![Seq::<char>::empty(), Seq::empty(), "22"@, Seq::empty(), Seq::empty(), Seq::empty(), Seq::empty(), Seq::empty()]),
        BrowseAction::Import => e is Import && !s2.should_quit && s2.screen == Screen::Browse(b2),
    }
}

/// An effect that carries a copy of the connection with id `id`, or
/// nothing when the store has none.
pub open spec fn conn_effect(store: Seq<ConnectionView>, id: Seq<char>, e: AppEffect, make: int) -> bool {
    if has_id(store, id) {
        match e {
            AppEffect::Connect(c) => make == 0 && c@ == with_id(store, id),
            AppEffect::SetupKeyAuth(c) => make == 1 && c@ == with_id(store, id),
            AppEffect::OpenTransfer(c) => make == 2 && c@ == with_id(store, id),
            AppEffect::FetchOptions(c) => make == 3 && c@ == with_id(store, id),
            _ => false,
        }
    } else {
        e is Nothing
    }
}

/// What the application does with what the details asked for.
pub open spec fn after_detail(s: App, d2: DetailState, da: DetailAction, s2: App, e: AppEffect) -> bool {
    let store = s.store@;
    &&& !s2.should_quit
    &&& match da {
        DetailAction::Nothing => e is Nothing && s2.store@ == store && s2.screen == Screen::Detail(d2)
            && s2.status_message == s.status_message,
        DetailAction::Back => e is Nothing && s2.store@ == store && s2.status_message is None
            && (s2.screen matches Screen::Browse(b) && fresh_browse(b)),
        DetailAction::Connect(id) => conn_effect(store, id@, e, 0) && s2.store@ == store
            && s2.screen == Screen::Detail(d2) && s2.status_message == s.status_message,
        DetailAction::SetupKeyAuth(id) => conn_effect(store, id@, e, 1) && s2.store@ == store
            && s2.screen == Screen::Detail(d2) && s2.status_message == s.status_message,
        DetailAction::Transfer(id) => conn_effect(store, id@, e, 2) && s2.store@ == store
            && s2.screen == Screen::Detail(d2) && s2.status_message == s.status_message,
        DetailAction::FetchOptions(id) => conn_effect(store, id@, e, 3) && s2.store@ == store
            && s2.screen == Screen::Detail(d2) && s2.status_message == s.status_message,
        DetailAction::RunRemoteAction { conn_id, command } => s2.store@ == store && s2.screen == Screen::Detail(d2)
            && s2.status_message == s.status_message && if has_id(store, conn_id@) {
                e matches AppEffect::RunRemote { conn, command: cmd } && conn@ == with_id(store, conn_id@) && cmd@ == command@
            } else {
                e is Nothing
            },
        DetailAction::Edit(id) => e is Nothing && s2.store@ == store && s2.status_message == s.status_message
            && if has_id(store, id@) {
                s2.screen matches Screen::Editor(ed) && ed.mode == EditorMode::Edit && editor_ok(ed) && ed.focused == 0
                    && field_texts(ed.fields@) == connection_texts(with_id(store, id@))
                    && crate::text::opt_view(ed.edited_id) == Some(with_id(store, id@).id)
                    && ed.edited_created == Some(with_id(store, id@).created_at)
            } else {
                s2.screen == Screen::Detail(d2)
            },
        DetailAction::Delete(id) => if has_id(store, id@) {
            &&& e is Save
            &&& s2.store@ == store.filter(|c: ConnectionView| c.id != id@)
            &&& crate::text::opt_view(s2.status_message) == Some("Connection deleted."@)
            &&& s2.screen matches Screen::Browse(b) && fresh_browse(b)
        } else {
            e is Nothing && s2.store@ == store && s2.screen == Screen::Detail(d2) && s2.status_message == s.status_message
        },
    }
}

/// What the application does with what the editor asked for.
pub open spec fn after_editor(s: App, ed: EditorState, ed2: EditorState, ea: EditorAction, s2: App, e: AppEffect) -> bool {
    let store = s.store@;
    &&& !s2.should_quit
    &&& match ea {
        EditorAction::Nothing => e is Nothing && s2.store@ == store && s2.screen == Screen::Editor(ed2)
            && s2.status_message == s.status_message,
        EditorAction::Cancel => e is Nothing && s2.store@ == store && s2.status_message == s.status_message
            && (s2.screen matches Screen::Browse(b) && fresh_browse(b)),
        EditorAction::Save(c) => {
            &&& e is Save
            &&& s2.screen matches Screen::Browse(b) && fresh_browse(b)
            &&& if ed.mode == EditorMode::Add {
                &&& s2.store@ == sort_by_name(store.push(c@))
                &&& crate::text::opt_view(s2.status_message) == Some("Connection added."@)
            } else {
                &&& s2.store@ == (if has_id(store, c@.id) { store.update(index_of_id(store, c@.id) as int, c@) } else { store })
                &&& crate::text::opt_view(s2.status_message) == Some("Connection updated."@)
            }
        },
    }
}

/// What the application does with what the transfer screen asked for.
pub open spec fn after_transfer(s: App, t2: TransferScreen, ta: TransferAction, s2: App, e: AppEffect) -> bool {
    &&& !s2.should_quit
    &&& s2.store@ == s.store@
    &&& s2.status_message == s.status_message
    &&& match ta {
        TransferAction::Nothing => e is Nothing && s2.screen == Screen::Transfer(t2),
        TransferAction::Cancel => e is Nothing && (s2.screen matches Screen::Detail(d) && fresh_detail(d, t2.remote_tree.conn.id@)),
        _ => e == AppEffect::Transfer(ta) && s2.screen == Screen::Transfer(t2),
    }
}

/// What a key press does to the application `s`, giving `s2` and effect `e`.
pub open spec fn app_key_spec(s: App, key: Key, s2: App, e: AppEffect) -> bool {
    if key.code == KeyCode::Char('c') && ctrl_held(key) {
        e is Nothing && s2.should_quit && s2.store@ == s.store@ && s2.screen == s.screen && s2.status_message == s.status_message
    } else {
        match s.screen {
            Screen::Browse(b) => exists|b2: BrowseState, ba: BrowseAction|
                browse_key_spec(b, key, b2, ba) && after_browse(s, b2, ba, s2, e),
            Screen::Detail(d) => exists|d2: DetailState, da: DetailAction|
                detail_key_spec(d, key, s.store@, d2, da) && after_detail(s, d2, da, s2, e),
            Screen::Editor(ed) => exists|ed2: EditorState, ea: EditorAction|
                editor_key_spec(ed, key, ed2, ea) && after_editor(s, ed, ed2, ea, s2, e),
            Screen::Transfer(t) => exists|t2: TransferScreen, ta: TransferAction|
                transfer_key_spec(t, key, t2, ta) && after_transfer(s, t2, ta, s2, e),
        }
    }
}

/// The store after adding connections `cs` one after the other, each add
/// keeping the store ordered by name.
pub open spec fn added_all(store: Seq<ConnectionView>, cs: Seq<ConnectionView>) -> Seq<ConnectionView>
    decreases cs.len(),
{
    if cs.len() == 0 {
        store
    } else {
        added_all(sort_by_name(store.push(cs[0])), cs.drop_first())
    }
}

/// `prefix` followed by `rest`.
fn message(prefix: &str, rest: &str) -> (r: String)
    ensures
        r@ == prefix@ + rest@,
{
    let mut m = owned(prefix);
    push_text(&mut m, rest);
    m
}

/// The message after an import: `Imported N connections`, with `, M
/// duplicates skipped` when some were skipped.
pub open spec fn import_message_text(count: u64, skipped: u64) -> Seq<char> {
    "Imported "@ + decimal(count as nat) + " connections"@ + if skipped > 0 {
        ", "@ + decimal(skipped as nat) + " duplicates skipped"@
    } else {
        Seq::empty()
    }
}

/// The message after an import.
pub fn import_message(count: u64, skipped: u64) -> (r: String)
    ensures
        r@ == import_message_text(count, skipped),
{
    let mut m = owned("Imported ");
    push_decimal(&mut m, count);
    push_text(&mut m, " connections");
    if skipped > 0 {
        push_text(&mut m, ", ");
        push_decimal(&mut m, skipped);
        push_text(&mut m, " duplicates skipped");
    }
    m
}

impl App {
    /// The application over a store of connections, showing the list.
    pub fn new(connections: Vec<Connection>) -> (a: App)
        ensures
            a.store@ == crate::model::store::conn_views(connections@),
            a.screen matches Screen::Browse(b) && fresh_browse(b),
            a.status_message is None,
            !a.should_quit,
    {
        App { store: ConnectionStore::new(connections), screen: Screen::Browse(BrowseState::new()), status_message: None, should_quit: false }
    }

    /// A copy of the connection with id `id`, if the store has one.
    fn copy_of(&self, id: &str) -> (r: Option<Connection>)
        ensures
            match r {
                Some(c) => has_id(self.store@, id@) && c@ == with_id(self.store@, id@),
                None => !has_id(self.store@, id@),
            },
    {
        match self.store.find_by_id(id) {
            Some(c) => Some(c.duplicate()),
            None => None,
        }
    }

    /// What the application does with what the details asked for.
    fn take_detail(&mut self, d2: DetailState, da: DetailAction) -> (e: AppEffect)
        requires
            detail_ok(d2),
            !old(self).should_quit,
        ensures
            after_detail(*old(self), d2, da, *final(self), e),
            app_ok(*final(self)),
    {
        proof {
            reveal_strlit("Connection deleted.");
        }
        match da {
            DetailAction::Nothing => {
                self.screen = Screen::Detail(d2);
                AppEffect::Nothing
            },
            DetailAction::Back => {
                self.status_message = None;
                self.screen = Screen::Browse(BrowseState::new());
                AppEffect::Nothing
            },
            DetailAction::Connect(id) => {
                self.screen = Screen::Detail(d2);
                match self.copy_of(id.as_str()) {
                    Some(c) => AppEffect::Connect(c),
                    None => AppEffect::Nothing,
                }
            },
            DetailAction::SetupKeyAuth(id) => {
                self.screen = Screen::Detail(d2);
                match self.copy_of(id.as_str()) {
                    Some(c) => AppEffect::SetupKeyAuth(c),
                    None => AppEffect::Nothing,
                }
            },
            DetailAction::Transfer(id) => {
                self.screen = Screen::Detail(d2);
                match self.copy_of(id.as_str()) {
                    Some(c) => AppEffect::OpenTransfer(c),
                    None => AppEffect::Nothing,
                }
            },
            DetailAction::FetchOptions(id) => {
                self.screen = Screen::Detail(d2);
                match self.copy_of(id.as_str()) {
                    Some(c) => AppEffect::FetchOptions(c),
                    None => AppEffect::Nothing,
                }
            },
            DetailAction::RunRemoteAction { conn_id, command } => {
                self.screen = Screen::Detail(d2);
                match self.copy_of(conn_id.as_str()) {
                    Some(conn) => AppEffect::RunRemote { conn, command },
                    None => AppEffect::Nothing,
                }
            },
            DetailAction::Edit(id) => {
                match self.copy_of(id.as_str()) {
                    Some(c) => {
                        self.screen = Screen::Editor(EditorState::new_edit(c));
                    },
                    None => {
                        self.screen = Screen::Detail(d2);
                    },
                }
                AppEffect::Nothing
            },
            DetailAction::Delete(id) => {
                let ghost before = self.store@;
                if self.store.remove(id.as_str()) {
                    assert(self.store@ == before.filter(|c: ConnectionView| c.id != id@));
                    assert(has_id(old(self).store@, id@)) by {
                        crate::model::store::lemma_index_of_id(old(self).store@, id@);
                    }
                    self.status_message = Some(owned("Connection deleted."));
                    self.screen = Screen::Browse(BrowseState::new());
                    AppEffect::Save
                } else {
                    assert(!has_id(old(self).store@, id@)) by {
                        crate::model::store::lemma_index_of_id(old(self).store@, id@);
                    }
                    self.screen = Screen::Detail(d2);
                    AppEffect::Nothing
                }
            },
        }
    }

    /// What the application does with what the editor asked for.
    fn take_editor(&mut self, mode: EditorMode, ed2: EditorState, ea: EditorAction) -> (e: AppEffect)
        requires
            editor_ok(ed2),
            !old(self).should_quit,
        ensures
            after_editor(*old(self), EditorState { mode, ..ed2 }, ed2, ea, *final(self), e),
            app_ok(*final(self)),
    {
        proof {
            reveal_strlit("Connection added.");
            reveal_strlit("Connection updated.");
        }
        match ea {
            EditorAction::Nothing => {
                self.screen = Screen::Editor(ed2);
                AppEffect::Nothing
            },
            EditorAction::Cancel => {
                self.screen = Screen::Browse(BrowseState::new());
                AppEffect::Nothing
            },
            EditorAction::Save(conn) => {
                match mode {
                    EditorMode::Add => {
                        self.store.add(conn);
                        self.status_message = Some(owned("Connection added."));
                    },
                    EditorMode::Edit => {
                        let ghost before = self.store@;
                        let ghost cv = conn@;
                        let id = owned(conn.id.as_str());
                        match self.store.find_by_id_mut(id.as_str()) {
                            Some(existing) => {
                                *existing = conn;
                            },
                            None => {},
                        }
                        assert(self.store@ == (if has_id(before, cv.id) { before.update(index_of_id(before, cv.id) as int, cv) } else { before })) by {
                            crate::model::store::lemma_index_of_id(before, cv.id);
                        }
                        self.status_message = Some(owned("Connection updated."));
                    },
                }
                self.screen = Screen::Browse(BrowseState::new());
                AppEffect::Save
            },
        }
    }

    /// A key press: `Ctrl+C` quits; any other key goes to the screen shown,
    /// and the application answers what the screen asks for.
    pub fn handle_key(&mut self, key: Key) -> (e: AppEffect)
        requires
            app_ok(*old(self)),
            !old(self).should_quit,
        ensures
            app_ok(*final(self)),
            app_key_spec(*old(self), key, *final(self), e),
    {
        if key.code == KeyCode::Char('c') && key.ctrl() {
            self.should_quit = true;
            return AppEffect::Nothing;
        }
        let mut screen = Screen::Browse(BrowseState::new());
        std::mem::swap(&mut screen, &mut self.screen);
        match screen {
            Screen::Browse(mut b) => {
                let ba = b.handle_key(key);
                let ghost gb = b;
                let ghost gba = ba;
                let e = match ba {
                    BrowseAction::Nothing => {
                        self.screen = Screen::Browse(b);
                        AppEffect::Nothing
                    },
                    BrowseAction::Quit => {
                        self.should_quit = true;
                        self.screen = Screen::Browse(b);
                        AppEffect::Nothing
                    },
                    BrowseAction::ViewDetail(id) => {
                        self.screen = Screen::Detail(DetailState::new(id));
                        AppEffect::Nothing
                    },
                    BrowseAction::AddNew => {
                        self.screen = Screen::Editor(EditorState::new_add());
                        AppEffect::Nothing
                    },
                    BrowseAction::Import => {
                        self.screen = Screen::Browse(b);
                        AppEffect::Import
                    },
                };
                assert(browse_key_spec(old(self).screen->Browse_0, key, gb, gba) && after_browse(*old(self), gb, gba, *self, e));
                assert(app_key_spec(*old(self), key, *self, e));
                e
            },
            Screen::Detail(mut d) => {
                let da = d.handle_key(key, &self.store);
                let ghost gd = d;
                let ghost gda = da;
                let e = self.take_detail(d, da);
                assert(detail_key_spec(old(self).screen->Detail_0, key, old(self).store@, gd, gda) && after_detail(*old(self), gd, gda, *self, e));
                assert(app_key_spec(*old(self), key, *self, e));
                e
            },
            Screen::Editor(mut ed) => {
                let mode = ed.mode;
                let ea = ed.handle_key(key);
                let ghost ged = ed;
                let ghost gea = ea;
                let e = self.take_editor(mode, ed, ea);
                assert(editor_key_spec(old(self).screen->Editor_0, key, ged, gea) && after_editor(*old(self), old(self).screen->Editor_0, ged, gea, *self, e));
                assert(app_key_spec(*old(self), key, *self, e));
                e
            },
            Screen::Transfer(mut t) => {
                let ta = t.handle_key(key);
                let ghost gt = t;
                let ghost gta = ta;
                let e = match ta {
                    TransferAction::Nothing => {
                        self.screen = Screen::Transfer(t);
                        AppEffect::Nothing
                    },
                    TransferAction::Cancel => {
                        let id = owned(t.remote_tree.conn.id.as_str());
                        self.screen = Screen::Detail(DetailState::new(id));
                        AppEffect::Nothing
                    },
                    other => {
                        self.screen = Screen::Transfer(t);
                        AppEffect::Transfer(other)
                    },
                };
                assert(transfer_key_spec(old(self).screen->Transfer_0, key, gt, gta) && after_transfer(*old(self), gt, gta, *self, e));
                assert(app_key_spec(*old(self), key, *self, e));
                e
            },
        }
    }

    /// After an interactive session: a message saying it ended, or the
    /// error, and back to the list.
    pub fn connected(&mut self, name: &str, error: Option<String>)
        ensures
            crate::text::opt_view(final(self).status_message) == Some(match error {
                None => "Disconnected from "@ + name@,
                Some(e) => "SSH error: "@ + e@,
            }),
            final(self).screen matches Screen::Browse(b) && fresh_browse(b),
            final(self).store == old(self).store,
            final(self).should_quit == old(self).should_quit,
            app_ok(*final(self)),
    {
        let m = match error {
            None => message("Disconnected from ", name),
            Some(e) => message("SSH error: ", e.as_str()),
        };
        self.status_message = Some(m);
        self.screen = Screen::Browse(BrowseState::new());
    }

    /// After key authentication was set up for connection `id` (named
    /// `name`): on success the connection gets the new key as its identity
    /// file and `now` as its update time, and the store must be saved
    /// (`true`); on failure the error is shown. The details come back.
    pub fn key_auth_done(&mut self, id: &str, name: &str, result: Result<String, String>, now: Timestamp) -> (save: bool)
        ensures
            save == (result is Ok),
            match result {
                Ok(path) => {
                    &&& final(self).store@ == (if has_id(old(self).store@, id@) {
                        old(self).store@.update(index_of_id(old(self).store@, id@) as int, ConnectionView {
                            identity_file: Some(path@),
                            updated_at: now,
                            ..with_id(old(self).store@, id@)
                        })
                    } else {
                        old(self).store@
                    })
                    &&& crate::text::opt_view(final(self).status_message) == Some("Key auth configured for "@ + name@)
                },
                Err(e) => final(self).store@ == old(self).store@
                    && crate::text::opt_view(final(self).status_message) == Some("Key setup failed: "@ + e@),
            },
            final(self).screen matches Screen::Detail(d) && fresh_detail(d, id@),
            final(self).should_quit == old(self).should_quit,
            app_ok(*final(self)),
    {
        let save = match result {
            Ok(path) => {
                let ghost before = self.store@;
                let ghost pv = path@;
                match self.store.find_by_id_mut(id) {
                    Some(existing) => {
                        existing.identity_file = Some(path);
                        existing.updated_at = now;
                    },
                    None => {},
                }
                proof {
                    crate::model::store::lemma_index_of_id(before, id@);
                    if has_id(before, id@) {
                        assert(self.store@ =~= before.update(index_of_id(before, id@) as int, ConnectionView {
                            identity_file: Some(pv),
                            updated_at: now,
                            ..with_id(before, id@)
                        }));
                    }
                }
                self.status_message = Some(message("Key auth configured for ", name));
                true
            },
            Err(e) => {
                self.status_message = Some(message("Key setup failed: ", e.as_str()));
                false
            },
        };
        self.screen = Screen::Detail(DetailState::new(owned(id)));
        save
    }

    /// Adds imported connections to the store, one after the other.
    pub fn apply_import(&mut self, imported: Vec<Connection>)
        ensures
            final(self).store@ == added_all(old(self).store@, crate::model::store::conn_views(imported@)),
            final(self).screen == old(self).screen,
            final(self).status_message == old(self).status_message,
            final(self).should_quit == old(self).should_quit,
    {
        let mut rest = imported;
        while rest.len() > 0
            invariant
                added_all(self.store@, crate::model::store::conn_views(rest@))
                    == added_all(old(self).store@, crate::model::store::conn_views(imported@)),
                self.screen == old(self).screen,
                self.status_message == old(self).status_message,
                self.should_quit == old(self).should_quit,
            decreases rest.len(),
        {
            let ghost before = rest@;
            let c = rest.remove(0);
            assert(crate::model::store::conn_views(rest@) =~= crate::model::store::conn_views(before).drop_first());
            assert(crate::model::store::conn_views(before)[0] == c@);
            self.store.add(c);
        }
        assert(crate::model::store::conn_views(rest@) =~= Seq::<ConnectionView>::empty());
    }

    /// Shows a status message.
    pub fn set_status(&mut self, m: String)
        ensures
            final(self).status_message == Some(m),
            final(self).screen == old(self).screen,
            final(self).store == old(self).store,
            final(self).should_quit == old(self).should_quit,
    {
        self.status_message = Some(m);
    }

    /// Shows the transfer screen.
    pub fn show_transfer(&mut self, t: TransferScreen)
        requires
            screen_ok(t),
        ensures
            final(self).screen == Screen::Transfer(t),
            final(self).store == old(self).store,
            final(self).status_message == old(self).status_message,
            final(self).should_quit == old(self).should_quit,
            app_ok(*final(self)),
    {
        self.screen = Screen::Transfer(t);
    }
}

} // verus!
