//! The connection editor: eight text fields and the connection they make.
use vstd::prelude::*;
use crate::model::connection::{Connection, ConnectionView};
use crate::model::ids::Timestamp;
use crate::text::{
    decimal, decimal_string, is_trimmed, join, join_texts, lemma_nonblank_comma_pieces,
    lemma_parse_decimal, lemma_split_joined, lemma_trim_trimmed, nonblank_trimmed, opt_view,
    owned, parse_u16, parse_u16_text, split_on, split_trimmed, trim, trimmed,
};
use crate::ui::app::EditorAction;
use crate::ui::input::{input_edit, Key, KeyCode, TextField};

verus! {

/// The number of fields: name, host, port, user, identity file, group,
/// tags (comma-separated) and jump host.
pub const FIELD_COUNT: usize = 8;

/// Whether the editor adds a connection or edits one.
#[derive(Debug, Clone, Copy, PartialEq, Eq, Structural)]
pub enum EditorMode {
    Add,
    Edit,
}

/// The connection editor.
pub struct EditorState {
    pub mode: EditorMode,
    /// The text of each field, in the order of `FIELD_COUNT`.
    pub fields: Vec<TextField>,
    pub focused: usize,
    pub edited_id: Option<String>,
    pub edited_created: Option<Timestamp>,
}

/// A trimmed text, or nothing when it is blank.
pub open spec fn non_empty_spec(s: Seq<char>) -> Option<Seq<char>> {
    if trim(s).len() == 0 { None } else { Some(trim(s)) }
}

/// A trimmed text, or nothing when it is blank.
pub fn non_empty(s: &str) -> (r: Option<String>)
    ensures
        opt_view(r) == non_empty_spec(s@),
{
    let t = trimmed(s);
    if t.as_str().is_empty() {
        None
    } else {
        Some(t)
    }
}

/// What the fields `f` make, besides the id and the times: `None` when
/// the trimmed name or host is blank. The port is the parsed trimmed port
/// field, 22 when it does not parse; user, identity file, group and jump
/// host are their trimmed fields, absent when blank; the tags are the
/// comma-separated pieces of the tag field, trimmed, without blank ones.
pub open spec fn fields_connection(f: Seq<Seq<char>>, c: ConnectionView) -> bool {
    &&& c.name == trim(f[0])
    &&& c.host == trim(f[1])
    &&& c.port == match parse_u16(trim(f[2])) {
        Some(p) => p,
        None => 22,
    }
    &&& c.user == non_empty_spec(f[3])
    &&& c.identity_file == non_empty_spec(f[4])
    &&& c.group == non_empty_spec(f[5])
    &&& c.tags == nonblank_trimmed(split_on(f[6], ','))
    &&& c.proxy_jump == non_empty_spec(f[7])
    &&& c.ssh_options.len() == 0
}

/// Whether the fields name a connection: trimmed name and host not blank.
pub open spec fn fields_valid(f: Seq<Seq<char>>) -> bool {
    trim(f[0]).len() > 0 && trim(f[1]).len() > 0
}

/// The texts of the fields.
pub open spec fn field_texts(fields: Seq<TextField>) -> Seq<Seq<char>> {
    fields.map_values(|t: TextField| t.value@)
}

/// The field texts that show a connection: name, host, port, user,
/// identity file, group, tags joined by `, ` and jump host, absent values
/// empty.
pub open spec fn connection_texts(c: ConnectionView) -> Seq<Seq<char>> {
    seq![
        c.name,
        c.host,
        decimal(c.port as nat),
        match c.user { Some(u) => u, None => Seq::empty() },
        match c.identity_file { Some(u) => u, None => Seq::empty() },
        match c.group { Some(u) => u, None => Seq::empty() },
        join(c.tags, ", "@),
        match c.proxy_jump { Some(u) => u, None => Seq::empty() },
    ]
}

/// A text or the empty text.
fn text_or_empty(o: &Option<String>) -> (r: String)
    ensures
        r@ == (match opt_view(*o) { Some(u) => u, None => Seq::empty() }),
{
    match o {
        Some(s) => owned(s.as_str()),
        None => String::new(),
    }
}

/// What saving the fields gives: nothing unless a name and a host are
/// given; otherwise the connection they make, keeping the id and creation
/// time of the connection being edited (a new one gets a fresh id).
pub open spec fn save_spec(e: EditorState, r: EditorAction) -> bool {
    let f = field_texts(e.fields@);
    if !fields_valid(f) {
        r is Nothing
    } else {
        match r {
            EditorAction::Save(c) => {
                &&& fields_connection(f, c@)
                &&& match e.edited_id {
                    Some(id) => c@.id == id@,
                    None => c@.id.len() == 36,
                }
                &&& match e.edited_created {
                    Some(t) => c@.created_at == t,
                    None => c@.created_at == c@.updated_at,
                }
            },
            _ => false,
        }
    }
}

/// What a key press does to editor `e`, giving `e2` and `r`.
pub open spec fn editor_key_spec(e: EditorState, key: Key, e2: EditorState, r: EditorAction) -> bool {
    &&& e2.mode == e.mode
    &&& e2.edited_id == e.edited_id
    &&& e2.edited_created == e.edited_created
    &&& match key.code {
        KeyCode::Esc => r is Cancel && e2 == e,
        KeyCode::Enter => e2 == e && save_spec(e, r),
        KeyCode::Tab | KeyCode::Down => r is Nothing && e2.fields == e.fields
            && e2.focused == (e.focused + 1) % (FIELD_COUNT as int),
        KeyCode::BackTab | KeyCode::Up => r is Nothing && e2.fields == e.fields
            && e2.focused == (if e.focused == 0 { FIELD_COUNT - 1 } else { e.focused - 1 }),
        _ => r is Nothing && e2.focused == e.focused && e2.fields@.len() == e.fields@.len()
            && e2.fields@ == e.fields@.update(e.focused as int, e2.fields@[e.focused as int])
            && (e2.fields@[e.focused as int].value@, e2.fields@[e.focused as int].cursor)
                == input_edit(e.fields@[e.focused as int].value@, e.fields@[e.focused as int].cursor, key),
    }
}

/// Whether an editor has its eight fields and a focus among them.
pub open spec fn editor_ok(e: EditorState) -> bool {
    e.fields@.len() == FIELD_COUNT && e.focused < FIELD_COUNT
}

impl EditorState {
    /// An editor for a new connection: all fields empty but the port, 22.
    pub fn new_add() -> (e: EditorState)
        ensures
            editor_ok(e),
            e.mode == EditorMode::Add,
            field_texts(e.fields@) == seq![Seq::<char>::empty(), Seq::empty(), "22"@, Seq::empty(), Seq::empty(), Seq::empty(), Seq::empty(), Seq::empty()],
            e.focused == 0,
            e.edited_id is None,
            e.edited_created is None,
    {
        let mut fields: Vec<TextField> = Vec::new();
        fields.push(TextField::empty());
        fields.push(TextField::empty());
        fields.push(TextField::with_value(owned("22")));
        fields.push(TextField::empty());
        fields.push(TextField::empty());
        fields.push(TextField::empty());
        fields.push(TextField::empty());
        fields.push(TextField::empty());
        let e = EditorState { mode: EditorMode::Add, fields, focused: 0, edited_id: None, edited_created: None };
        assert(e.fields@[0].value@ =~= Seq::<char>::empty());
        assert(e.fields@[1].value@ =~= Seq::<char>::empty());
        assert(e.fields@[3].value@ =~= Seq::<char>::empty());
        assert(e.fields@[4].value@ =~= Seq::<char>::empty());
        assert(e.fields@[5].value@ =~= Seq::<char>::empty());
        assert(e.fields@[6].value@ =~= Seq::<char>::empty());
        assert(e.fields@[7].value@ =~= Seq::<char>::empty());
        assert(field_texts(e.fields@) =~= seq![Seq::<char>::empty(), Seq::empty(), "22"@, Seq::empty(), Seq::empty(), Seq::empty(), Seq::empty(), Seq::empty()]);
        e
    }

    /// An editor for an existing connection, its fields showing it.
    pub fn new_edit(conn: Connection) -> (e: EditorState)
        ensures
            editor_ok(e),
            e.mode == EditorMode::Edit,
            field_texts(e.fields@) == connection_texts(conn@),
            e.focused == 0,
            opt_view(e.edited_id) == Some(conn@.id),
            e.edited_created == Some(conn.created_at),
    {
        let mut fields: Vec<TextField> = Vec::new();
        fields.push(TextField::with_value(owned(conn.name.as_str())));
        fields.push(TextField::with_value(owned(conn.host.as_str())));
        fields.push(TextField::with_value(decimal_string(conn.port as u64)));
        fields.push(TextField::with_value(text_or_empty(&conn.user)));
        fields.push(TextField::with_value(text_or_empty(&conn.identity_file)));
        fields.push(TextField::with_value(text_or_empty(&conn.group)));
        fields.push(TextField::with_value(join_texts(&conn.tags, ", ")));
        fields.push(TextField::with_value(text_or_empty(&conn.proxy_jump)));
        let created = conn.created_at;
        let e = EditorState { mode: EditorMode::Edit, fields, focused: 0, edited_id: Some(conn.id), edited_created: Some(created) };
        assert(field_texts(e.fields@) =~= connection_texts(conn@));
        e
    }

    /// The connection the fields make, if they name one.
    fn try_save(&self) -> (r: EditorAction)
        requires
            editor_ok(*self),
        ensures
            save_spec(*self, r),
    {
        let ghost f = field_texts(self.fields@);
        assert(f[0] == self.fields@[0].value@);
        assert(f[1] == self.fields@[1].value@);
        assert(f[2] == self.fields@[2].value@);
        assert(f[3] == self.fields@[3].value@);
        assert(f[4] == self.fields@[4].value@);
        assert(f[5] == self.fields@[5].value@);
        assert(f[6] == self.fields@[6].value@);
        assert(f[7] == self.fields@[7].value@);
        let name = trimmed(self.fields[0].value());
        let host = trimmed(self.fields[1].value());
        if name.as_str().is_empty() || host.as_str().is_empty() {
            return EditorAction::Nothing;
        }
        let port_text = trimmed(self.fields[2].value());
        let port = match parse_u16_text(port_text.as_str()) {
            Some(p) => p,
            None => 22,
        };
        let mut conn = Connection::new(name, host);
        conn.port = port;
        conn.user = non_empty(self.fields[3].value());
        conn.identity_file = non_empty(self.fields[4].value());
        conn.group = non_empty(self.fields[5].value());
        conn.tags = split_trimmed(self.fields[6].value(), ',');
        conn.proxy_jump = non_empty(self.fields[7].value());
        match &self.edited_id {
            Some(id) => {
                conn.id = owned(id.as_str());
            },
            None => {},
        }
        match self.edited_created {
            Some(t) => {
                conn.created_at = t;
            },
            None => {},
        }
        EditorAction::Save(conn)
    }

    /// A key press: `Esc` cancels, `Enter` saves when a name and a host are
    /// given, `Tab`/`Down` and `BackTab`/`Up` move the focus round the
    /// fields, and other keys edit the focused field.
    pub fn handle_key(&mut self, key: Key) -> (r: EditorAction)
        requires
            editor_ok(*old(self)),
        ensures
            editor_ok(*final(self)),
            editor_key_spec(*old(self), key, *final(self), r),
    {
        match key.code {
            KeyCode::Esc => EditorAction::Cancel,
            KeyCode::Enter => self.try_save(),
            KeyCode::Tab | KeyCode::Down => {
                self.focused = (self.focused + 1) % FIELD_COUNT;
                EditorAction::Nothing
            },
            KeyCode::BackTab | KeyCode::Up => {
                self.focused = if self.focused == 0 { FIELD_COUNT - 1 } else { self.focused - 1 };
                EditorAction::Nothing
            },
            _ => {
                let fi = self.focused;
                let ghost before = self.fields@;
                let mut t = self.fields.remove(fi);
                t.handle_key(key);
                self.fields.insert(fi, t);
                assert(self.fields@ =~= before.update(fi as int, self.fields@[fi as int]));
                EditorAction::Nothing
            },
        }
    }
}

/// Whether an optional text is absent, or present, not empty and without
/// whitespace at its ends.
pub open spec fn opt_trimmed(o: Option<Seq<char>>) -> bool {
    match o {
        Some(x) => is_trimmed(x) && x.len() > 0,
        None => true,
    }
}

/// Whether a connection reads back unchanged from the editor's fields:
/// name and host not empty, no text with whitespace at its ends, tags
/// without commas, and no `-o` options (the editor has no field for them).
pub open spec fn editable(c: ConnectionView) -> bool {
    &&& is_trimmed(c.name) && c.name.len() > 0
    &&& is_trimmed(c.host) && c.host.len() > 0
    &&& opt_trimmed(c.user)
    &&& opt_trimmed(c.identity_file)
    &&& opt_trimmed(c.group)
    &&& opt_trimmed(c.proxy_jump)
    &&& forall|k: int| 0 <= k < c.tags.len() ==> is_trimmed(#[trigger] c.tags[k]) && c.tags[k].len() > 0
        && forall|i: int| 0 <= i < c.tags[k].len() ==> c.tags[k][i] != ','
    &&& c.ssh_options.len() == 0
}

proof fn lemma_opt_roundtrip(o: Option<Seq<char>>)
    requires
        opt_trimmed(o),
    ensures
        non_empty_spec(match o { Some(u) => u, None => Seq::empty() }) == o,
{
    match o {
        Some(u) => lemma_trim_trimmed(u),
        None => lemma_trim_trimmed(Seq::empty()),
    }
}

/// Opening a connection in the editor and saving it without a change gives
/// the connection back: its fields name a connection, and the connection
/// they make has the same name, host, port, user, identity file, group,
/// tags, jump host and options (the editor keeps the id and creation time).
pub proof fn lemma_edit_save_roundtrip(c: ConnectionView, c2: ConnectionView)
    requires
        editable(c),
        fields_connection(connection_texts(c), c2),
    ensures
        fields_valid(connection_texts(c)),
        c2.name == c.name,
        c2.host == c.host,
        c2.port == c.port,
        c2.user == c.user,
        c2.identity_file == c.identity_file,
        c2.group == c.group,
        c2.tags == c.tags,
        c2.proxy_jump == c.proxy_jump,
        c2.ssh_options == c.ssh_options,
{
    let f = connection_texts(c);
    lemma_trim_trimmed(c.name);
    lemma_trim_trimmed(c.host);
    lemma_parse_decimal(c.port);
    lemma_trim_trimmed(decimal(c.port as nat));
    lemma_opt_roundtrip(c.user);
    lemma_opt_roundtrip(c.identity_file);
    lemma_opt_roundtrip(c.group);
    lemma_opt_roundtrip(c.proxy_jump);
    if c.tags.len() == 0 {
        assert(join(c.tags, ", "@) == Seq::<char>::empty());
        assert(split_on(Seq::<char>::empty(), ',') == seq![Seq::<char>::empty()]);
        lemma_trim_trimmed(Seq::empty());
        let e = seq![Seq::<char>::empty()];
        assert(e.drop_last() =~= Seq::<Seq<char>>::empty());
        assert(nonblank_trimmed(Seq::<Seq<char>>::empty()) == Seq::<Seq<char>>::empty());
        assert(e.last() == Seq::<char>::empty());
        assert(trim(e.last()).len() == 0);
        assert(nonblank_trimmed(e) == Seq::<Seq<char>>::empty());
        assert(c.tags =~= Seq::<Seq<char>>::empty());
    } else {
        lemma_split_joined(c.tags);
        lemma_nonblank_comma_pieces(c.tags);
    }
    assert(c2.ssh_options =~= c.ssh_options);
}

} // verus!
