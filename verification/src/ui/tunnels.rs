//! The tunnel screen of a connection: the list of its tunnels and the form
//! that adds or edits one. Starting and stopping tunnels is left to the
//! caller, which the screen asks through its actions.
use vstd::prelude::*;
use crate::model::tunnel::{default_bind, tunnel_views, Tunnel, TunnelType, TunnelView};
use crate::text::{
    ascii_lower, ascii_lower_word, decimal, is_ascii_text, lemma_ascii_lower_again, lemma_ascii_lower_trim, decimal_string, is_trimmed, lemma_parse_decimal, lemma_trim_trimmed, lower_form, opt_view, owned, parse_u16, parse_u16_text, push_text,
    text_eq, to_lower, trim, trimmed,
};
use crate::ui::input::{input_edit, Key, KeyCode, TextField};

verus! {

/// The number of form fields: local port, remote host, remote port, name,
/// type and bind address.
pub const FORM_FIELD_COUNT: usize = 6;

/// The tunnel form.
pub struct TunnelForm {
    /// The text of each field, in the order of `FORM_FIELD_COUNT`.
    pub fields: Vec<TextField>,
    pub focused: usize,
    pub editing_id: Option<String>,
}

/// Whether the screen shows the list or the form.
pub enum TunnelMode {
    List,
    Add(TunnelForm),
    Edit(TunnelForm),
}

/// The tunnel screen.
pub struct TunnelScreenState {
    pub connection_name: String,
    pub tunnels: Vec<Tunnel>,
    /// The chosen line of the list.
    pub selected: Option<usize>,
    pub mode: TunnelMode,
}

/// What the tunnel screen asks for.
pub enum TunnelAction {
    Nothing,
    Back,
    Start { tunnel_id: String },
    Stop { tunnel_id: String },
    /// Store these tunnels for the connection.
    Save { tunnels: Vec<Tunnel> },
}

/// The texts of the form fields.
pub open spec fn form_texts(fields: Seq<TextField>) -> Seq<Seq<char>> {
    fields.map_values(|t: TextField| t.value@)
}

/// The kind named in the type field: `r`/`remote` and `d`/`dynamic`
/// (trimmed, in any case); anything else is a local tunnel.
pub open spec fn parsed_type(s: Seq<char>) -> TunnelType {
    let t = lower_form(trim(s));
    if t == "r"@ || t == "remote"@ {
        TunnelType::Remote
    } else if t == "d"@ || t == "dynamic"@ {
        TunnelType::Dynamic
    } else {
        TunnelType::Local
    }
}

/// Whether the form's numbers parse: the local port always, and the
/// remote port of a local or remote tunnel when it is given.
pub open spec fn form_parses(f: Seq<Seq<char>>) -> bool {
    &&& parse_u16(trim(f[0])) is Some
    &&& (parsed_type(f[4]) != TunnelType::Dynamic && trim(f[2]).len() > 0) ==> parse_u16(trim(f[2])) is Some
}

/// Whether tunnel `t` is what the form's fields describe (its id aside):
/// the bind address defaults to `127.0.0.1`; a local or remote tunnel has
/// a remote host (default `localhost`) and a remote port (default the
/// local port); a blank name becomes `SOCKS :port` for a dynamic tunnel
/// and `host:port` otherwise.
pub open spec fn form_tunnel(f: Seq<Seq<char>>, t: TunnelView) -> bool {
    let port = parse_u16(trim(f[0]))->0;
    let kind = parsed_type(f[4]);
    let dynamic = kind == TunnelType::Dynamic;
    &&& t.bind_port == port
    &&& t.tunnel_type == kind
    &&& t.bind_address == (if trim(f[5]).len() == 0 { default_bind() } else { trim(f[5]) })
    &&& t.remote_host == (if dynamic {
        None
    } else if trim(f[1]).len() == 0 {
        Some("localhost"@)
    } else {
        Some(trim(f[1]))
    })
    &&& t.remote_port == (if dynamic {
        None
    } else if trim(f[2]).len() == 0 {
        Some(port)
    } else {
        Some(parse_u16(trim(f[2]))->0)
    })
    &&& t.name == (if trim(f[3]).len() > 0 {
        trim(f[3])
    } else if dynamic {
        "SOCKS :"@ + decimal(port as nat)
    } else {
        t.remote_host->0 + ":"@ + decimal(t.remote_port->0 as nat)
    })
}

/// What the form gives: nothing unless its numbers parse; otherwise the
/// tunnel it describes, keeping the id of the tunnel being edited.
pub open spec fn parse_spec(form: TunnelForm, r: Option<Tunnel>) -> bool {
    let f = form_texts(form.fields@);
    match r {
        None => !form_parses(f),
        Some(t) => {
            &&& form_parses(f)
            &&& form_tunnel(f, t@)
            &&& match form.editing_id {
                Some(id) => t@.id == id@,
                None => t@.id.len() == 36,
            }
        },
    }
}

/// The field texts that show a tunnel: local port, remote host, remote
/// port, name, type (empty, `r` or `d`) and bind address (empty for the
/// default).
pub open spec fn tunnel_texts(t: TunnelView) -> Seq<Seq<char>> {
    seq![
        decimal(t.bind_port as nat),
        match t.remote_host { Some(h) => h, None => Seq::empty() },
        match t.remote_port { Some(p) => decimal(p as nat), None => Seq::empty() },
        t.name,
        match t.tunnel_type {
            TunnelType::Local => Seq::empty(),
            TunnelType::Remote => "r"@,
            TunnelType::Dynamic => "d"@,
        },
        if t.bind_address == default_bind() { Seq::empty() } else { t.bind_address },
    ]
}

/// Whether a form has its six fields and a focus among them.
pub open spec fn form_ok(form: TunnelForm) -> bool {
    form.fields@.len() == FORM_FIELD_COUNT && form.focused < FORM_FIELD_COUNT
}

/// The first tunnel with id `id`, if any.
pub open spec fn first_with_id(ts: Seq<TunnelView>, id: Seq<char>) -> Option<int> {
    if exists|i: int| 0 <= i < ts.len() && ts[i].id == id {
        Some(choose|i: int| 0 <= i < ts.len() && ts[i].id == id && forall|j: int| 0 <= j < i ==> ts[j].id != id)
    } else {
        None
    }
}

/// `v` clamped to `0..=max`.
pub open spec fn clamp(v: int, max: int) -> int {
    if v < 0 { 0 } else if v > max { max } else { v }
}

/// The chosen line after moving by `delta` in a list of `len` lines: the
/// choice stays when the list is empty.
pub open spec fn moved(selected: Option<usize>, delta: int, len: nat) -> Option<usize> {
    if len == 0 {
        selected
    } else {
        let cur = match selected { Some(i) => i as int, None => 0 };
        Some(clamp(cur + delta, len - 1) as usize)
    }
}

impl TunnelForm {
    /// An empty form for a new tunnel.
    pub fn new_empty() -> (f: TunnelForm)
        ensures
            form_ok(f),
            forall|i: int| 0 <= i < FORM_FIELD_COUNT ==> (#[trigger] f.fields@[i]).value@.len() == 0,
            f.focused == 0,
            f.editing_id is None,
    {
        let mut fields: Vec<TextField> = Vec::new();
        let mut i: usize = 0;
        while i < FORM_FIELD_COUNT
            invariant
                i <= FORM_FIELD_COUNT,
                fields@.len() == i,
                forall|k: int| 0 <= k < i ==> (#[trigger] fields@[k]).value@.len() == 0,
            decreases FORM_FIELD_COUNT - i,
        {
            fields.push(TextField::empty());
            i = i + 1;
        }
        TunnelForm { fields, focused: 0, editing_id: None }
    }

    /// A form showing a tunnel, to edit it.
    pub fn from_tunnel(t: &Tunnel) -> (f: TunnelForm)
        ensures
            form_ok(f),
            form_texts(f.fields@) == tunnel_texts(t@),
            f.focused == 0,
            opt_view(f.editing_id) == Some(t@.id),
    {
        proof {
            reveal_strlit("127.0.0.1");
        }
        let mut fields: Vec<TextField> = Vec::new();
        fields.push(TextField::with_value(decimal_string(t.bind_port as u64)));
        fields.push(TextField::with_value(match &t.remote_host {
            Some(h) => owned(h.as_str()),
            None => String::new(),
        }));
        fields.push(TextField::with_value(match t.remote_port {
            Some(p) => decimal_string(p as u64),
            None => String::new(),
        }));
        fields.push(TextField::with_value(owned(t.name.as_str())));
        fields.push(TextField::with_value(match t.tunnel_type {
            TunnelType::Local => String::new(),
            TunnelType::Remote => owned("r"),
            TunnelType::Dynamic => owned("d"),
        }));
        fields.push(TextField::with_value(if text_eq(t.bind_address.as_str(), "127.0.0.1") {
            String::new()
        } else {
            owned(t.bind_address.as_str())
        }));
        let f = TunnelForm { fields, focused: 0, editing_id: Some(owned(t.id.as_str())) };
        assert(form_texts(f.fields@) =~= tunnel_texts(t@));
        f
    }

    /// The tunnel the form describes, if its numbers parse.
    pub fn parse_tunnel(&self) -> (r: Option<Tunnel>)
        requires
            form_ok(*self),
        ensures
            parse_spec(*self, r),
    {
        proof {
            reveal_strlit("r");
            reveal_strlit("remote");
            reveal_strlit("d");
            reveal_strlit("dynamic");
            reveal(lower_form);
        }
        let ghost f = form_texts(self.fields@);
        assert(f[0] == self.fields@[0].value@);
        assert(f[1] == self.fields@[1].value@);
        assert(f[2] == self.fields@[2].value@);
        assert(f[3] == self.fields@[3].value@);
        assert(f[4] == self.fields@[4].value@);
        assert(f[5] == self.fields@[5].value@);
        let port_text = trimmed(self.fields[0].value());
        let bind_port = match parse_u16_text(port_text.as_str()) {
            Some(p) => p,
            None => return None,
        };
        let type_text = to_lower(trimmed(self.fields[4].value()).as_str());
        let tunnel_type = if text_eq(type_text.as_str(), "r") || text_eq(type_text.as_str(), "remote") {
            TunnelType::Remote
        } else if text_eq(type_text.as_str(), "d") || text_eq(type_text.as_str(), "dynamic") {
            TunnelType::Dynamic
        } else {
            TunnelType::Local
        };
        assert(tunnel_type == parsed_type(f[4]));
        let dynamic = match tunnel_type {
            TunnelType::Dynamic => true,
            _ => false,
        };
        let bind_text = trimmed(self.fields[5].value());
        let bind_address = if bind_text.as_str().is_empty() { owned("127.0.0.1") } else { bind_text };
        let remote_host = if dynamic {
            None
        } else {
            let v = trimmed(self.fields[1].value());
            Some(if v.as_str().is_empty() { owned("localhost") } else { v })
        };
        let remote_port: Option<u16> = if dynamic {
            None
        } else {
            let v = trimmed(self.fields[2].value());
            if v.as_str().is_empty() {
                Some(bind_port)
            } else {
                match parse_u16_text(v.as_str()) {
                    Some(p) => Some(p),
                    None => return None,
                }
            }
        };
        let name_text = trimmed(self.fields[3].value());
        let name = if !name_text.as_str().is_empty() {
            name_text
        } else if dynamic {
            let mut n = owned("SOCKS :");
            push_text(&mut n, decimal_string(bind_port as u64).as_str());
            n
        } else {
            let mut n = match &remote_host {
                Some(h) => owned(h.as_str()),
                None => owned("?"),
            };
            push_text(&mut n, ":");
            let rp = match remote_port {
                Some(p) => p,
                None => bind_port,
            };
            push_text(&mut n, decimal_string(rp as u64).as_str());
            n
        };
        let mut tunnel = Tunnel::new(name, tunnel_type, bind_port);
        tunnel.bind_address = bind_address;
        tunnel.remote_host = remote_host;
        tunnel.remote_port = remote_port;
        match &self.editing_id {
            Some(id) => {
                tunnel.id = owned(id.as_str());
            },
            None => {},
        }
        match tunnel.validate() {
            Ok(()) => Some(tunnel),
            Err(_) => None,
        }
    }
}

/// The kind read from the type field ignores the case of letters: an
/// ASCII type text gives the same kind as its lowercase form, so `R`,
/// `Remote` and `REMOTE` give a remote tunnel as `r` does.
pub proof fn lemma_type_ignores_case(s: Seq<char>)
    requires
        is_ascii_text(s),
    ensures
        parsed_type(s) == parsed_type(ascii_lower(s)),
{
    reveal(lower_form);
    lemma_ascii_lower_trim(s);
    lemma_ascii_lower_again(trim(s));
}

/// Two ASCII type texts that differ only in the case of their letters give
/// the same kind of tunnel.
pub proof fn lemma_type_case_pairs(s1: Seq<char>, s2: Seq<char>)
    requires
        is_ascii_text(s1),
        is_ascii_text(s2),
        ascii_lower(s1) == ascii_lower(s2),
    ensures
        parsed_type(s1) == parsed_type(s2),
{
    lemma_type_ignores_case(s1);
    lemma_type_ignores_case(s2);
}

/// The words of the type field: once trimmed and lowercased, `r` or
/// `remote` gives a remote tunnel, `d` or `dynamic` a dynamic one, and
/// anything else a local one.
pub proof fn lemma_type_words(s: Seq<char>)
    requires
        is_ascii_text(s),
    ensures
        (ascii_lower(trim(s)) == "r"@ || ascii_lower(trim(s)) == "remote"@) ==> parsed_type(s) == TunnelType::Remote,
        (ascii_lower(trim(s)) == "d"@ || ascii_lower(trim(s)) == "dynamic"@) ==> parsed_type(s) == TunnelType::Dynamic,
        !(ascii_lower(trim(s)) == "r"@ || ascii_lower(trim(s)) == "remote"@ || ascii_lower(trim(s)) == "d"@
            || ascii_lower(trim(s)) == "dynamic"@) ==> parsed_type(s) == TunnelType::Local,
{
    reveal_strlit("r");
    reveal_strlit("d");
    reveal_strlit("remote");
    reveal_strlit("dynamic");
    reveal(lower_form);
    lemma_ascii_lower_trim(s);
    assert("d"@[0] != "r"@[0]);
    assert("d"@.len() != "remote"@.len() && "dynamic"@.len() != "r"@.len() && "dynamic"@.len() != "remote"@.len());
}

/// Whether a tunnel can be shown in the form and read back unchanged: its
/// name and bind address are trimmed and not blank, and a local or remote
/// tunnel has a trimmed, non-blank remote host and a remote port, which a
/// dynamic tunnel does not have.
pub open spec fn form_editable(t: TunnelView) -> bool {
    &&& is_trimmed(t.name) && t.name.len() > 0
    &&& is_trimmed(t.bind_address) && t.bind_address.len() > 0
    &&& if t.tunnel_type == TunnelType::Dynamic {
        t.remote_host is None && t.remote_port is None
    } else {
        &&& t.remote_host matches Some(h) && is_trimmed(h) && h.len() > 0
        &&& t.remote_port is Some
    }
}

/// Editing a tunnel and saving the form untouched gives the same tunnel:
/// the form that `from_tunnel` shows parses back to it.
pub proof fn lemma_form_roundtrip(t: Tunnel, form: TunnelForm, r: Option<Tunnel>)
    requires
        form_editable(t@),
        form_texts(form.fields@) == tunnel_texts(t@),
        opt_view(form.editing_id) == Some(t@.id),
        parse_spec(form, r),
    ensures
        r matches Some(t2) && t2@ == t@,
{
    reveal(lower_form);
    reveal_strlit("r");
    reveal_strlit("d");
    reveal_strlit("remote");
    reveal_strlit("dynamic");
    reveal_strlit("127.0.0.1");
    let tv = t@;
    let f = form_texts(form.fields@);
    lemma_parse_decimal(tv.bind_port);
    lemma_trim_trimmed(decimal(tv.bind_port as nat));
    lemma_trim_trimmed(tv.name);
    assert(f[0] == decimal(tv.bind_port as nat));
    assert(f[3] == tv.name);
    assert(f[4] == tunnel_texts(tv)[4]);
    match tv.tunnel_type {
        TunnelType::Local => {
            assert(f[4] =~= Seq::<char>::empty());
            assert(trim(f[4]) =~= Seq::<char>::empty());
            assert(ascii_lower(Seq::<char>::empty()) =~= Seq::<char>::empty());
            assert(parsed_type(f[4]) == TunnelType::Local);
        },
        TunnelType::Remote => {
            lemma_trim_trimmed("r"@);
            assert(is_ascii_text("r"@));
            assert(ascii_lower("r"@) =~= "r"@);
            assert(parsed_type(f[4]) == TunnelType::Remote);
        },
        TunnelType::Dynamic => {
            lemma_trim_trimmed("d"@);
            assert(is_ascii_text("d"@));
            assert(ascii_lower("d"@) =~= "d"@);
            assert(parsed_type(f[4]) == TunnelType::Dynamic);
        },
    }
    if tv.tunnel_type != TunnelType::Dynamic {
        let h = tv.remote_host->0;
        let p = tv.remote_port->0;
        lemma_trim_trimmed(h);
        lemma_parse_decimal(p);
        lemma_trim_trimmed(decimal(p as nat));
        assert(f[1] == h);
        assert(f[2] == decimal(p as nat));
    }
    if tv.bind_address == default_bind() {
        assert(f[5] =~= Seq::<char>::empty());
        assert(trim(f[5]) =~= Seq::<char>::empty());
    } else {
        lemma_trim_trimmed(tv.bind_address);
        assert(f[5] == tv.bind_address);
    }
    assert(form_parses(f));
    match r {
        Some(t2) => {
            assert(form_tunnel(f, t2@));
            assert(t2@ =~= tv);
        },
        None => {},
    }
}

/// What a key press does to the form `form`, giving `form2`.
pub open spec fn form_edit_spec(form: TunnelForm, key: Key, form2: TunnelForm) -> bool {
    &&& form2.editing_id == form.editing_id
    &&& match key.code {
        KeyCode::Tab | KeyCode::Down => form2.fields == form.fields
            && form2.focused == (form.focused + 1) % (FORM_FIELD_COUNT as int),
        KeyCode::BackTab | KeyCode::Up => form2.fields == form.fields
            && form2.focused == (if form.focused == 0 { FORM_FIELD_COUNT - 1 } else { form.focused - 1 }),
        _ => form2.focused == form.focused && form2.fields@.len() == form.fields@.len()
            && form2.fields@ == form.fields@.update(form.focused as int, form2.fields@[form.focused as int])
            && (form2.fields@[form.focused as int].value@, form2.fields@[form.focused as int].cursor)
                == input_edit(form.fields@[form.focused as int].value@, form.fields@[form.focused as int].cursor, key),
    }
}

/// The tunnels after saving `t` from the form: an edited tunnel replaces
/// the first tunnel with its id (nothing changes when there is none); a
/// new one is added at the end.
pub open spec fn saved_tunnels(ts: Seq<TunnelView>, t: TunnelView, edit: bool) -> Seq<TunnelView> {
    if edit {
        match first_with_id(ts, t.id) {
            Some(i) => ts.update(i, t),
            None => ts,
        }
    } else {
        ts.push(t)
    }
}

/// Whether the screen's form, if it shows one, is well formed.
pub open spec fn screen_ok(s: TunnelScreenState) -> bool {
    match s.mode {
        TunnelMode::List => true,
        TunnelMode::Add(f) => form_ok(f),
        TunnelMode::Edit(f) => form_ok(f),
    }
}

/// What a key press does to the tunnel screen `s`, giving `s2` and `a`.
pub open spec fn tunnel_key_spec(s: TunnelScreenState, key: Key, s2: TunnelScreenState, a: TunnelAction) -> bool {
    let ts = tunnel_views(s.tunnels@);
    let ts2 = tunnel_views(s2.tunnels@);
    &&& s2.connection_name == s.connection_name
    &&& match s.mode {
        TunnelMode::List => match key.code {
            KeyCode::Esc => a is Back && s2 == s,
            KeyCode::Char('j') | KeyCode::Down => a is Nothing && ts2 == ts && s2.mode is List
                && s2.selected == moved(s.selected, 1, ts.len()),
            KeyCode::Char('k') | KeyCode::Up => a is Nothing && ts2 == ts && s2.mode is List
                && s2.selected == moved(s.selected, -1, ts.len()),
            KeyCode::Char('a') => a is Nothing && ts2 == ts && s2.selected == s.selected
                && (s2.mode matches TunnelMode::Add(f) && form_ok(f) && f.focused == 0 && f.editing_id is None
                && forall|i: int| 0 <= i < FORM_FIELD_COUNT ==> (#[trigger] f.fields@[i]).value@.len() == 0),
            KeyCode::Char('e') => a is Nothing && ts2 == ts && s2.selected == s.selected && match s.selected {
                Some(i) => if i < ts.len() {
                    s2.mode matches TunnelMode::Edit(f) && form_ok(f) && f.focused == 0
                        && form_texts(f.fields@) == tunnel_texts(ts[i as int]) && opt_view(f.editing_id) == Some(ts[i as int].id)
                } else {
                    s2.mode is List
                },
                None => s2.mode is List,
            },
            KeyCode::Char('d') => s2.mode is List && match s.selected {
                Some(i) => if i < ts.len() {
                    &&& a matches TunnelAction::Stop { tunnel_id } && tunnel_id@ == ts[i as int].id
                    &&& ts2 == ts.remove(i as int)
                    &&& s2.selected == (if ts2.len() > 0 && i >= ts2.len() { Some((ts2.len() - 1) as usize) } else { s.selected })
                } else {
                    a is Nothing && ts2 == ts && s2.selected == s.selected
                },
                None => a is Nothing && ts2 == ts && s2.selected == s.selected,
            },
            KeyCode::Enter => ts2 == ts && s2.selected == s.selected && s2.mode is List && match s.selected {
                Some(i) => if i < ts.len() {
                    a matches TunnelAction::Start { tunnel_id } && tunnel_id@ == ts[i as int].id
                } else {
                    a is Nothing
                },
                None => a is Nothing,
            },
            _ => a is Nothing && s2 == s,
        },
        TunnelMode::Add(form) => form_key(s, form, false, key, s2, a),
        TunnelMode::Edit(form) => form_key(s, form, true, key, s2, a),
    }
}

/// What a key press does to the screen `s` showing form `form`.
pub open spec fn form_key(s: TunnelScreenState, form: TunnelForm, edit: bool, key: Key, s2: TunnelScreenState, a: TunnelAction) -> bool {
    let ts = tunnel_views(s.tunnels@);
    let ts2 = tunnel_views(s2.tunnels@);
    &&& s2.selected == s.selected
    &&& match key.code {
        KeyCode::Esc => a is Nothing && ts2 == ts && s2.mode is List,
        KeyCode::Enter => if form_parses(form_texts(form.fields@)) {
            &&& s2.mode is List
            &&& a matches TunnelAction::Save { tunnels } && tunnel_views(tunnels@) == ts2
            &&& exists|t: TunnelView| form_tunnel(form_texts(form.fields@), t)
                && (match form.editing_id { Some(id) => t.id == id@, None => t.id.len() == 36 })
                && ts2 == saved_tunnels(ts, t, edit)
        } else {
            a is Nothing && ts2 == ts && s2.mode == s.mode
        },
        _ => a is Nothing && ts2 == ts && match s2.mode {
            TunnelMode::Add(f2) => !edit && form_edit_spec(form, key, f2),
            TunnelMode::Edit(f2) => edit && form_edit_spec(form, key, f2),
            TunnelMode::List => false,
        },
    }
}

/// A copy of a list of tunnels.
fn copy_tunnels(ts: &Vec<Tunnel>) -> (r: Vec<Tunnel>)
    ensures
        tunnel_views(r@) == tunnel_views(ts@),
{
    let mut r: Vec<Tunnel> = Vec::new();
    let mut i: usize = 0;
    while i < ts.len()
        invariant
            i <= ts.len(),
            tunnel_views(r@) == tunnel_views(ts@).take(i as int),
        decreases ts.len() - i,
    {
        let ghost prev = r@;
        r.push(ts[i].duplicate());
        assert(tunnel_views(r@) =~= tunnel_views(prev).push(ts@[i as int]@));
        assert(tunnel_views(ts@).take(i + 1) =~= tunnel_views(ts@).take(i as int).push(ts@[i as int]@));
        i = i + 1;
    }
    assert(tunnel_views(ts@).take(ts.len() as int) =~= tunnel_views(ts@));
    r
}

impl TunnelScreenState {
    /// The tunnel list of a connection, the first line chosen.
    pub fn new(connection_name: String, tunnels: Vec<Tunnel>) -> (s: TunnelScreenState)
        ensures
            s.connection_name == connection_name,
            s.tunnels == tunnels,
            s.selected == Some(0usize),
            s.mode is List,
    {
        TunnelScreenState { connection_name, tunnels, selected: Some(0), mode: TunnelMode::List }
    }

    /// The chosen line after moving by one line down (`down`) or up.
    fn move_selection(&mut self, down: bool)
        ensures
            final(self).selected == moved(old(self).selected, if down { 1 } else { -1 }, old(self).tunnels@.len()),
            final(self).tunnels == old(self).tunnels,
            final(self).mode == old(self).mode,
            final(self).connection_name == old(self).connection_name,
    {
        if self.tunnels.len() == 0 {
            return;
        }
        let max = self.tunnels.len() - 1;
        let cur = match self.selected {
            Some(i) => i,
            None => 0,
        };
        let next = if down {
            if cur >= max { max } else { cur + 1 }
        } else {
            if cur == 0 { 0 } else if cur - 1 > max { max } else { cur - 1 }
        };
        self.selected = Some(next);
    }

    /// A key press: in the list, `Esc` leaves, `j`/`k` and the arrows move,
    /// `a` adds, `e` edits, `d` deletes (and stops) and `Enter` starts the
    /// chosen tunnel; in the form, `Esc` goes back to the list, `Enter`
    /// saves a form whose numbers parse, `Tab`/`BackTab` and the arrows move
    /// the focus, and other keys edit the focused field.
    pub fn handle_key(&mut self, key: Key) -> (a: TunnelAction)
        requires
            screen_ok(*old(self)),
        ensures
            screen_ok(*final(self)),
            tunnel_key_spec(*old(self), key, *final(self), a),
    {
        let in_form = match self.mode {
            TunnelMode::List => false,
            _ => true,
        };
        if in_form {
            return self.handle_form_key(key);
        }
        let ghost ts = tunnel_views(self.tunnels@);
        match key.code {
            KeyCode::Esc => TunnelAction::Back,
            KeyCode::Char('j') | KeyCode::Down => {
                self.move_selection(true);
                TunnelAction::Nothing
            },
            KeyCode::Char('k') | KeyCode::Up => {
                self.move_selection(false);
                TunnelAction::Nothing
            },
            KeyCode::Char('a') => {
                self.mode = TunnelMode::Add(TunnelForm::new_empty());
                TunnelAction::Nothing
            },
            KeyCode::Char('e') => {
                match self.selected {
                    Some(i) => {
                        if i < self.tunnels.len() {
                            assert(ts[i as int] == self.tunnels@[i as int]@);
                            let form = TunnelForm::from_tunnel(&self.tunnels[i]);
                            self.mode = TunnelMode::Edit(form);
                        }
                    },
                    None => {},
                }
                TunnelAction::Nothing
            },
            KeyCode::Char('d') => {
                match self.selected {
                    Some(idx) => {
                        if idx < self.tunnels.len() {
                            assert(ts[idx as int] == self.tunnels@[idx as int]@);
                            let tunnel_id = owned(self.tunnels[idx].id.as_str());
                            let ghost before = self.tunnels@;
                            self.tunnels.remove(idx);
                            assert(tunnel_views(self.tunnels@) =~= ts.remove(idx as int));
                            if self.tunnels.len() > 0 && idx >= self.tunnels.len() {
                                self.selected = Some(self.tunnels.len() - 1);
                            }
                            return TunnelAction::Stop { tunnel_id };
                        }
                    },
                    None => {},
                }
                TunnelAction::Nothing
            },
            KeyCode::Enter => {
                match self.selected {
                    Some(i) => {
                        if i < self.tunnels.len() {
                            assert(ts[i as int] == self.tunnels@[i as int]@);
                            return TunnelAction::Start { tunnel_id: owned(self.tunnels[i].id.as_str()) };
                        }
                    },
                    None => {},
                }
                TunnelAction::Nothing
            },
            _ => TunnelAction::Nothing,
        }
    }

    /// The position of the first tunnel with id `id`, if any.
    fn position_of(&self, id: &str) -> (r: Option<usize>)
        ensures
            match first_with_id(tunnel_views(self.tunnels@), id@) {
                Some(i) => 0 <= i < self.tunnels@.len() && r == Some(i as usize),
                None => r is None,
            },
    {
        let ghost ts = tunnel_views(self.tunnels@);
        let mut i: usize = 0;
        while i < self.tunnels.len()
            invariant
                i <= self.tunnels.len(),
                ts == tunnel_views(self.tunnels@),
                forall|j: int| 0 <= j < i ==> ts[j].id != id@,
            decreases self.tunnels.len() - i,
        {
            assert(ts[i as int] == self.tunnels@[i as int]@);
            if text_eq(self.tunnels[i].id.as_str(), id) {
                assert(first_with_id(ts, id@) == Some(i as int)) by {
                    let k = choose|k: int| 0 <= k < ts.len() && ts[k].id == id@ && forall|j: int| 0 <= j < k ==> ts[j].id != id@;
                    assert(k == i) by {
                        if k < i {
                            assert(ts[k].id != id@);
                        } else if k > i {
                            assert(ts[i as int].id != id@);
                        }
                    }
                }
                return Some(i);
            }
            i = i + 1;
        }
        None
    }

    /// A key press while the form is shown.
    #[verifier::rlimit(40)]
    fn handle_form_key(&mut self, key: Key) -> (a: TunnelAction)
        requires
            screen_ok(*old(self)),
            !(old(self).mode is List),
        ensures
            screen_ok(*final(self)),
            tunnel_key_spec(*old(self), key, *final(self), a),
    {
        let ghost ts = tunnel_views(self.tunnels@);
        let edit = match self.mode {
            TunnelMode::Edit(_) => true,
            _ => false,
        };
        match key.code {
            KeyCode::Esc => {
                self.mode = TunnelMode::List;
                TunnelAction::Nothing
            },
            KeyCode::Enter => {
                let parsed = match &self.mode {
                    TunnelMode::Add(f) => f.parse_tunnel(),
                    TunnelMode::Edit(f) => f.parse_tunnel(),
                    TunnelMode::List => None,
                };
                match parsed {
                    Some(tunnel) => {
                        let ghost t = tunnel@;
                        if edit {
                            // The list's length bounds the position that is found.
                            let count = self.tunnels.len();
                            match self.position_of(tunnel.id.as_str()) {
                                Some(pos) => {
                                    assert(first_with_id(ts, t.id) == Some(pos as int));
                                    self.tunnels.set(pos, tunnel);
                                    assert(tunnel_views(self.tunnels@) =~= ts.update(pos as int, t));
                                },
                                None => {},
                            }
                        } else {
                            self.tunnels.push(tunnel);
                            assert(tunnel_views(self.tunnels@) =~= ts.push(t));
                        }
                        self.mode = TunnelMode::List;
                        let tunnels = copy_tunnels(&self.tunnels);
                        assert(saved_tunnels(ts, t, edit) == tunnel_views(self.tunnels@));
                        TunnelAction::Save { tunnels }
                    },
                    None => TunnelAction::Nothing,
                }
            },
            _ => {
                let mut mode = TunnelMode::List;
                std::mem::swap(&mut mode, &mut self.mode);
                let (mut form, is_edit) = match mode {
                    TunnelMode::Add(f) => (f, false),
                    TunnelMode::Edit(f) => (f, true),
                    TunnelMode::List => (TunnelForm::new_empty(), false),
                };
                let count = FORM_FIELD_COUNT;
                match key.code {
                    KeyCode::Tab | KeyCode::Down => {
                        form.focused = (form.focused + 1) % count;
                    },
                    KeyCode::BackTab | KeyCode::Up => {
                        form.focused = if form.focused == 0 { count - 1 } else { form.focused - 1 };
                    },
                    _ => {
                        let fi = form.focused;
                        let ghost before = form.fields@;
                        let mut t = form.fields.remove(fi);
                        t.handle_key(key);
                        form.fields.insert(fi, t);
                        assert(form.fields@ =~= before.update(fi as int, form.fields@[fi as int]));
                    },
                }
                self.mode = if is_edit { TunnelMode::Edit(form) } else { TunnelMode::Add(form) };
                TunnelAction::Nothing
            },
        }
    }
}

} // verus!
