use sshkeeper::model::connection::Connection;
use sshkeeper::model::store::ConnectionStore;
use sshkeeper::model::tunnel::{Tunnel, TunnelType};
use sshkeeper::ssh::actions::build_actions;
use sshkeeper::ui::app::{App, AppEffect, BrowseAction, DetailAction, EditorAction, Screen};
use sshkeeper::ui::browse::{BrowseRow, BrowseState};
use sshkeeper::ui::detail::{DetailState, Overlay};
use sshkeeper::ui::editor::{non_empty, EditorMode, EditorState};
use sshkeeper::ui::input::{Key, KeyCode};
use sshkeeper::ui::quick_actions::{
    fetch_failure, option_lines, ActionListResult, ActionListState, FieldKind, ParamFormResult, ParamFormState,
    SelectState,
};
use sshkeeper::ui::tunnels::{TunnelAction, TunnelForm, TunnelMode, TunnelScreenState};

fn key(code: KeyCode) -> Key {
    Key::plain(code)
}

fn type_text(f: &mut impl FnMut(Key), s: &str) {
    for c in s.chars() {
        f(key(KeyCode::Char(c)));
    }
}

// ---- quick actions ----

#[test]
fn action_list_shows_headers_and_filters() {
    let mut l = ActionListState::new();
    assert_eq!(l.actions.len(), 20);
    assert_eq!(l.selectable.len(), 20);
    assert_eq!(l.entries.len(), 20 + 6);
    assert_eq!(l.highlighted(), Some(1));
    type_text(&mut |k| { l.handle_key(k); }, "docker");
    assert_eq!(l.search.value, "docker");
    assert!(l.selectable.len() >= 1);
    for &i in &l.selectable {
        match l.entries[i] {
            sshkeeper::ui::quick_actions::ListEntry::Action(a) => {
                let act = &l.actions[a];
                let hay = format!("{} {} {}", act.name, act.description, act.category.label()).to_lowercase();
                assert!(hay.contains("docker"));
            }
            _ => panic!("selectable line is not an action"),
        }
    }
    assert!(matches!(l.handle_key(key(KeyCode::Esc)), ActionListResult::Nothing));
    assert!(l.search.value.is_empty());
    assert_eq!(l.selectable.len(), 20);
    assert!(matches!(l.handle_key(key(KeyCode::Esc)), ActionListResult::Dismiss));
}

#[test]
fn action_search_shows_every_match_in_order() {
    let mut l = ActionListState::new();
    type_text(&mut |k| { l.handle_key(k); }, "LOG");
    let expected: Vec<usize> = (0..l.actions.len())
        .filter(|&i| {
            let act = &l.actions[i];
            act.name.to_lowercase().contains("log")
                || act.description.to_lowercase().contains("log")
                || act.category.label().to_lowercase().contains("log")
        })
        .collect();
    let shown: Vec<usize> = l
        .selectable
        .iter()
        .map(|&i| match l.entries[i] {
            sshkeeper::ui::quick_actions::ListEntry::Action(a) => a,
            _ => panic!("selectable line is not an action"),
        })
        .collect();
    assert!(!expected.is_empty());
    assert_eq!(shown, expected);
}

#[test]
fn action_list_moves_and_picks() {
    let mut l = ActionListState::new();
    l.handle_key(key(KeyCode::Up));
    assert_eq!(l.selected, 0);
    l.handle_key(key(KeyCode::Down));
    l.handle_key(key(KeyCode::Down));
    assert_eq!(l.selected, 2);
    match l.handle_key(key(KeyCode::Enter)) {
        ActionListResult::Selected(a) => assert_eq!(a.name, "System Uptime"),
        _ => panic!("expected an action"),
    }
    type_text(&mut |k| { l.handle_key(k); }, "zzzz");
    assert!(l.selectable.is_empty());
    assert!(matches!(l.handle_key(key(KeyCode::Enter)), ActionListResult::Nothing));
}

#[test]
fn option_lines_and_failures() {
    assert_eq!(option_lines(" nginx.service \n\n sshd.service\n"), vec!["nginx.service", "sshd.service"]);
    let f = fetch_failure("boom");
    assert_eq!(f, vec!["ERROR: boom".to_string()]);
}

#[test]
fn param_form_builds_the_command() {
    let actions = build_actions();
    let logs = actions.iter().find(|a| a.name == "Service Logs").unwrap().duplicate();
    let mut f = ParamFormState::new(logs);
    assert_eq!(f.fields.len(), 2);
    assert!(matches!(f.fields[0].kind, FieldKind::Select { state: SelectState::Loading, .. }));
    match &f.fields[1].kind {
        FieldKind::Text(t) => assert_eq!(t.value, "50"),
        _ => panic!("expected a text field"),
    }
    let fetches = f.select_fetches();
    assert_eq!(fetches.len(), 1);
    assert_eq!(fetches[0].0, 0);
    f.deliver_options(0, vec!["nginx.service".into(), "sshd.service".into()]);
    match &f.fields[0].kind {
        FieldKind::Select { state: SelectState::Loaded(o), filtered, .. } => {
            assert_eq!(o.len(), 2);
            assert_eq!(filtered, &vec![0usize, 1]);
        }
        _ => panic!("expected loaded options"),
    }
    f.handle_key(key(KeyCode::Enter));
    f.handle_key(key(KeyCode::Down));
    f.handle_key(key(KeyCode::Char('n')));
    match &f.fields[0].kind {
        FieldKind::Select { filtered, selected, expanded, .. } => {
            assert_eq!(filtered, &vec![0usize]);
            assert_eq!(*selected, 0);
            assert!(*expanded);
        }
        _ => panic!("expected a pick-one field"),
    }
    f.handle_key(key(KeyCode::Enter));
    f.handle_key(key(KeyCode::Tab));
    f.handle_key(key(KeyCode::Char('0')));
    f.handle_key(key(KeyCode::Tab));
    assert_eq!(f.focused, 2);
    match f.handle_key(key(KeyCode::Enter)) {
        ParamFormResult::Execute(cmd) => assert_eq!(cmd, "journalctl -u nginx.service -n 500 --no-pager"),
        _ => panic!("expected a command"),
    }
}

#[test]
fn param_form_failed_options_and_focus_wrap() {
    let actions = build_actions();
    let logs = actions.iter().find(|a| a.name == "Service Logs").unwrap().duplicate();
    let mut f = ParamFormState::new(logs);
    f.deliver_options(0, fetch_failure("no systemd"));
    assert!(matches!(&f.fields[0].kind, FieldKind::Select { state: SelectState::Error(e), .. } if e == "ERROR: no systemd"));
    f.handle_key(key(KeyCode::Up));
    assert_eq!(f.focused, 2);
    f.handle_key(key(KeyCode::Down));
    assert_eq!(f.focused, 0);
    assert!(matches!(f.handle_key(key(KeyCode::Esc)), ParamFormResult::Cancel));
}

#[test]
fn param_form_confirmation() {
    let actions = build_actions();
    let reboot = actions.iter().find(|a| a.name == "Reboot Server").unwrap().duplicate();
    let mut f = ParamFormState::new(reboot);
    assert!(matches!(f.handle_key(key(KeyCode::Enter)), ParamFormResult::Nothing));
    assert!(f.confirm_shown);
    assert!(matches!(f.handle_key(key(KeyCode::Char('n'))), ParamFormResult::Nothing));
    assert!(!f.confirm_shown && !f.confirmed);
    f.handle_key(key(KeyCode::Enter));
    match f.handle_key(key(KeyCode::Char('y'))) {
        ParamFormResult::Execute(cmd) => assert_eq!(cmd, "sudo reboot"),
        _ => panic!("expected the command"),
    }
}

// ---- editor ----

#[test]
fn editor_saves_trimmed_fields() {
    let mut e = EditorState::new_add();
    assert_eq!(e.mode, EditorMode::Add);
    assert_eq!(e.fields[2].value, "22");
    type_text(&mut |k| { e.handle_key(k); }, " web ");
    e.handle_key(key(KeyCode::Tab));
    type_text(&mut |k| { e.handle_key(k); }, "example.com");
    e.handle_key(key(KeyCode::Tab));
    e.handle_key(key(KeyCode::Backspace));
    e.handle_key(key(KeyCode::Backspace));
    type_text(&mut |k| { e.handle_key(k); }, "abc");
    for _ in 0..4 {
        e.handle_key(key(KeyCode::Tab));
    }
    type_text(&mut |k| { e.handle_key(k); }, "a, b ,,c");
    match e.handle_key(key(KeyCode::Enter)) {
        EditorAction::Save(c) => {
            assert_eq!(c.name, "web");
            assert_eq!(c.host, "example.com");
            assert_eq!(c.port, 22);
            assert_eq!(c.tags, vec!["a", "b", "c"]);
            assert!(c.user.is_none());
            assert_eq!(c.id.len(), 36);
        }
        _ => panic!("expected a save"),
    }
}

#[test]
fn editor_requires_name_and_host() {
    let mut e = EditorState::new_add();
    type_text(&mut |k| { e.handle_key(k); }, "only name");
    assert!(matches!(e.handle_key(key(KeyCode::Enter)), EditorAction::Nothing));
    assert!(matches!(e.handle_key(key(KeyCode::Esc)), EditorAction::Cancel));
    e.handle_key(key(KeyCode::BackTab));
    assert_eq!(e.focused, 7);
}

#[test]
fn editor_edit_keeps_id_and_creation() {
    let mut c = Connection::new("db".into(), "10.0.0.5".into());
    c.port = 5022;
    c.user = Some("admin".into());
    c.tags = vec!["x".into(), "y".into()];
    let e = EditorState::new_edit(c.duplicate());
    let texts: Vec<&str> = e.fields.iter().map(|f| f.value.as_str()).collect();
    assert_eq!(texts, vec!["db", "10.0.0.5", "5022", "admin", "", "", "x, y", ""]);
    let mut e = e;
    match e.handle_key(key(KeyCode::Enter)) {
        EditorAction::Save(d) => {
            assert_eq!(d.id, c.id);
            assert_eq!(d.created_at, c.created_at);
            assert_eq!(d.port, 5022);
            assert_eq!(d.user.as_deref(), Some("admin"));
            assert_eq!(d.tags, c.tags);
        }
        _ => panic!("expected a save"),
    }
}

#[test]
fn non_empty_values() {
    assert_eq!(non_empty("  x "), Some("x".to_string()));
    assert_eq!(non_empty("   "), None);
}

// ---- tunnels ----

fn fill(form: &mut TunnelScreenState, values: &[&str]) {
    for (i, v) in values.iter().enumerate() {
        if i > 0 {
            form.handle_key(key(KeyCode::Tab));
        }
        type_text(&mut |k| { form.handle_key(k); }, v);
    }
}

#[test]
fn tunnel_form_defaults() {
    let mut s = TunnelScreenState::new("web".into(), Vec::new());
    s.handle_key(key(KeyCode::Char('a')));
    assert!(matches!(s.mode, TunnelMode::Add(_)));
    fill(&mut s, &["5432"]);
    match s.handle_key(key(KeyCode::Enter)) {
        TunnelAction::Save { tunnels } => {
            assert_eq!(tunnels.len(), 1);
            let t = &tunnels[0];
            assert_eq!(t.name, "localhost:5432");
            assert_eq!(t.tunnel_type, TunnelType::Local);
            assert_eq!(t.bind_address, "127.0.0.1");
            assert_eq!(t.remote_host.as_deref(), Some("localhost"));
            assert_eq!(t.remote_port, Some(5432));
        }
        _ => panic!("expected a save"),
    }
    assert!(matches!(s.mode, TunnelMode::List));
}

#[test]
fn tunnel_form_dynamic_and_errors() {
    let mut s = TunnelScreenState::new("web".into(), Vec::new());
    s.handle_key(key(KeyCode::Char('a')));
    fill(&mut s, &["1080", "ignored", "", "", " Dynamic", "0.0.0.0"]);
    match s.handle_key(key(KeyCode::Enter)) {
        TunnelAction::Save { tunnels } => {
            let t = &tunnels[0];
            assert_eq!(t.name, "SOCKS :1080");
            assert_eq!(t.tunnel_type, TunnelType::Dynamic);
            assert!(t.remote_host.is_none() && t.remote_port.is_none());
            assert_eq!(t.bind_address, "0.0.0.0");
        }
        _ => panic!("expected a save"),
    }
    s.handle_key(key(KeyCode::Char('a')));
    fill(&mut s, &["notaport"]);
    assert!(matches!(s.handle_key(key(KeyCode::Enter)), TunnelAction::Nothing));
    assert!(matches!(s.mode, TunnelMode::Add(_)));
    s.handle_key(key(KeyCode::Esc));
    assert!(matches!(s.mode, TunnelMode::List));
    assert_eq!(s.tunnels.len(), 1);
}

#[test]
fn tunnel_list_keys() {
    let mut a = Tunnel::new("a".into(), TunnelType::Dynamic, 1);
    a.name = "first".into();
    let b = Tunnel::new("b".into(), TunnelType::Dynamic, 2);
    let (ida, idb) = (a.id.clone(), b.id.clone());
    let mut s = TunnelScreenState::new("web".into(), vec![a, b]);
    match s.handle_key(key(KeyCode::Enter)) {
        TunnelAction::Start { tunnel_id } => assert_eq!(tunnel_id, ida),
        _ => panic!("expected a start"),
    }
    s.handle_key(key(KeyCode::Down));
    s.handle_key(key(KeyCode::Down));
    assert_eq!(s.selected, Some(1));
    match s.handle_key(key(KeyCode::Char('d'))) {
        TunnelAction::Stop { tunnel_id } => assert_eq!(tunnel_id, idb),
        _ => panic!("expected a stop"),
    }
    assert_eq!(s.tunnels.len(), 1);
    assert_eq!(s.selected, Some(0));
    assert!(matches!(s.handle_key(key(KeyCode::Esc)), TunnelAction::Back));
}

#[test]
fn tunnel_edit_replaces_the_tunnel() {
    let mut t = Tunnel::new("pg".into(), TunnelType::Remote, 8080);
    t.remote_host = Some("db".into());
    t.remote_port = Some(5432);
    let id = t.id.clone();
    let form = TunnelForm::from_tunnel(&t);
    let texts: Vec<&str> = form.fields.iter().map(|f| f.value.as_str()).collect();
    assert_eq!(texts, vec!["8080", "db", "5432", "pg", "r", ""]);
    let mut s = TunnelScreenState::new("web".into(), vec![t]);
    s.handle_key(key(KeyCode::Char('e')));
    assert!(matches!(s.mode, TunnelMode::Edit(_)));
    s.handle_key(key(KeyCode::Down));
    s.handle_key(key(KeyCode::Down));
    s.handle_key(key(KeyCode::Down));
    type_text(&mut |k| { s.handle_key(k); }, "2");
    match s.handle_key(key(KeyCode::Enter)) {
        TunnelAction::Save { tunnels } => {
            assert_eq!(tunnels.len(), 1);
            assert_eq!(tunnels[0].id, id);
            assert_eq!(tunnels[0].name, "pg2");
            assert_eq!(tunnels[0].tunnel_type, TunnelType::Remote);
        }
        _ => panic!("expected a save"),
    }
}

#[test]
fn tunnel_form_reads_back_unchanged() {
    let mut local = Tunnel::new("web".into(), TunnelType::Local, 8080);
    local.remote_host = Some("intranet".into());
    local.remote_port = Some(80);
    let mut remote = Tunnel::new("back".into(), TunnelType::Remote, 9000);
    remote.remote_host = Some("localhost".into());
    remote.remote_port = Some(3000);
    remote.bind_address = "0.0.0.0".into();
    let socks = Tunnel::new("socks".into(), TunnelType::Dynamic, 1080);
    for t in [local, remote, socks] {
        let back = TunnelForm::from_tunnel(&t).parse_tunnel().expect("the form parses");
        assert_eq!(back.id, t.id);
        assert_eq!(back.name, t.name);
        assert_eq!(back.tunnel_type, t.tunnel_type);
        assert_eq!(back.bind_address, t.bind_address);
        assert_eq!(back.bind_port, t.bind_port);
        assert_eq!(back.remote_host, t.remote_host);
        assert_eq!(back.remote_port, t.remote_port);
    }
}

// ---- browse, details and the application ----

fn store() -> ConnectionStore {
    let mut a = Connection::new("alpha".into(), "a.example".into());
    a.group = Some("work".into());
    let b = Connection::new("bravo".into(), "b.example".into());
    let mut c = Connection::new("charlie".into(), "c.example".into());
    c.group = Some("work".into());
    ConnectionStore::new(vec![a, b, c])
}

#[test]
fn browse_rows_flat_and_grouped() {
    let st = store();
    let mut b = BrowseState::new();
    let rows = b.refresh(&st);
    assert_eq!(rows.len(), 3);
    assert_eq!(b.filtered_ids.len(), 3);
    b.handle_key(key(KeyCode::Tab));
    assert!(b.grouped);
    let rows = b.refresh(&st);
    assert!(matches!(&rows[0], BrowseRow::Group(Some(g)) if g == "work"));
    assert!(matches!(rows[1], BrowseRow::Entry(0)));
    assert!(matches!(rows[2], BrowseRow::Entry(2)));
    assert!(matches!(&rows[3], BrowseRow::Group(None)));
    assert!(matches!(rows[4], BrowseRow::Entry(1)));
    assert_eq!(b.filtered_ids[0], "");
    b.handle_key(key(KeyCode::Char('j')));
    assert_eq!(b.selected, Some(1));
    b.handle_key(key(KeyCode::Char('j')));
    b.handle_key(key(KeyCode::Char('j')));
    assert_eq!(b.selected, Some(4));
    b.handle_key(key(KeyCode::Char('k')));
    assert_eq!(b.selected, Some(2));
    match b.handle_key(key(KeyCode::Enter)) {
        BrowseAction::ViewDetail(id) => assert_eq!(id, st.all()[2].id),
        _ => panic!("expected a connection"),
    }
}

#[test]
fn browse_search() {
    let st = store();
    let mut b = BrowseState::new();
    b.handle_key(key(KeyCode::Char('/')));
    assert!(b.search_active);
    type_text(&mut |k| { b.handle_key(k); }, "char");
    assert_eq!(b.query(), "char");
    let rows = b.refresh(&st);
    assert_eq!(rows.len(), 1);
    b.handle_key(key(KeyCode::Enter));
    assert!(!b.search_active);
    assert_eq!(b.query(), "");
    assert!(matches!(b.handle_key(key(KeyCode::Char('q'))), BrowseAction::Quit));
    assert!(matches!(b.handle_key(key(KeyCode::Char('a'))), BrowseAction::AddNew));
    assert!(matches!(b.handle_key(key(KeyCode::Char('i'))), BrowseAction::Import));
}

#[test]
fn detail_keys_and_delete_confirmation() {
    let st = store();
    let id = st.all()[0].id.clone();
    let mut d = DetailState::new(id.clone());
    assert!(matches!(d.handle_key(key(KeyCode::Enter), &st), DetailAction::Connect(x) if x == id));
    assert!(matches!(d.handle_key(key(KeyCode::Char('t')), &st), DetailAction::Transfer(_)));
    assert!(matches!(d.handle_key(key(KeyCode::Char('d')), &st), DetailAction::Nothing));
    assert!(d.confirm_delete);
    assert!(matches!(d.handle_key(key(KeyCode::Char('n')), &st), DetailAction::Nothing));
    assert!(!d.confirm_delete);
    d.handle_key(key(KeyCode::Char('d')), &st);
    assert!(matches!(d.handle_key(key(KeyCode::Char('y')), &st), DetailAction::Delete(x) if x == id));
}

#[test]
fn detail_quick_action_flows() {
    let st = store();
    let id = st.all()[0].id.clone();
    let mut d = DetailState::new(id.clone());
    d.handle_key(key(KeyCode::Char('a')), &st);
    assert!(matches!(d.overlay, Overlay::ActionList(_)));
    match d.handle_key(key(KeyCode::Enter), &st) {
        DetailAction::RunRemoteAction { conn_id, command } => {
            assert_eq!(conn_id, id);
            assert_eq!(command, "df -h");
        }
        _ => panic!("expected a remote command"),
    }
    assert!(matches!(d.overlay, Overlay::Nothing));
    d.handle_key(key(KeyCode::Char('a')), &st);
    for _ in 0..10 {
        d.handle_key(key(KeyCode::Down), &st);
    }
    assert!(matches!(d.handle_key(key(KeyCode::Enter), &st), DetailAction::FetchOptions(x) if x == id));
    assert!(d.param_form().is_some());
    d.deliver_options(0, vec!["cron.service".into()]);
    assert!(matches!(d.handle_key(key(KeyCode::Esc), &st), DetailAction::Nothing));
    assert!(matches!(d.overlay, Overlay::ActionList(_)));
}

#[test]
fn app_flow() {
    let st = store();
    let id = st.all()[1].id.clone();
    let conns: Vec<Connection> = st.all().iter().map(|c| c.duplicate()).collect();
    let mut app = App::new(conns);
    assert!(matches!(app.screen, Screen::Browse(_)));
    if let Screen::Browse(b) = &mut app.screen {
        b.refresh(&app.store);
    }
    app.handle_key(key(KeyCode::Down));
    assert!(matches!(app.handle_key(key(KeyCode::Enter)), AppEffect::Nothing));
    assert!(matches!(&app.screen, Screen::Detail(d) if d.connection_id == id));
    match app.handle_key(key(KeyCode::Enter)) {
        AppEffect::Connect(c) => assert_eq!(c.name, "bravo"),
        _ => panic!("expected a session"),
    }
    app.connected("bravo", None);
    assert_eq!(app.status_message.as_deref(), Some("Disconnected from bravo"));
    app.connected("bravo", Some("refused".into()));
    assert_eq!(app.status_message.as_deref(), Some("SSH error: refused"));
    assert!(matches!(app.screen, Screen::Browse(_)));
    assert!(matches!(app.handle_key(key(KeyCode::Char('a'))), AppEffect::Nothing));
    assert!(matches!(&app.screen, Screen::Editor(e) if e.mode == EditorMode::Add));
    type_text(&mut |k| { app.handle_key(k); }, "zulu");
    app.handle_key(key(KeyCode::Tab));
    type_text(&mut |k| { app.handle_key(k); }, "z.example");
    assert!(matches!(app.handle_key(key(KeyCode::Enter)), AppEffect::Save));
    assert_eq!(app.status_message.as_deref(), Some("Connection added."));
    assert_eq!(app.store.all().len(), 4);
    assert_eq!(app.store.all()[3].name, "zulu");
    let ctrl_c = Key { code: KeyCode::Char('c'), modifiers: 2 };
    app.handle_key(ctrl_c);
    assert!(app.should_quit);
}

#[test]
fn app_delete_and_key_auth() {
    let st = store();
    let id = st.all()[0].id.clone();
    let conns: Vec<Connection> = st.all().iter().map(|c| c.duplicate()).collect();
    let mut app = App::new(conns);
    let save = app.key_auth_done(&id, "alpha", Ok("/home/me/.ssh/id_ed25519".into()), sshkeeper::model::ids::Timestamp { secs: 5, subsec_nanos: 0 });
    assert!(save);
    assert_eq!(app.store.find_by_id(&id).unwrap().identity_file.as_deref(), Some("/home/me/.ssh/id_ed25519"));
    assert_eq!(app.status_message.as_deref(), Some("Key auth configured for alpha"));
    assert!(matches!(&app.screen, Screen::Detail(d) if d.connection_id == id));
    assert!(!app.key_auth_done(&id, "alpha", Err("no key".into()), sshkeeper::model::ids::Timestamp { secs: 6, subsec_nanos: 0 }));
    assert_eq!(app.status_message.as_deref(), Some("Key setup failed: no key"));
    app.handle_key(key(KeyCode::Char('d')));
    assert!(matches!(app.handle_key(key(KeyCode::Char('y'))), AppEffect::Save));
    assert_eq!(app.status_message.as_deref(), Some("Connection deleted."));
    assert_eq!(app.store.all().len(), 2);
    assert!(app.store.find_by_id(&id).is_none());
}

#[test]
fn import_messages() {
    assert_eq!(sshkeeper::ui::app::import_message(3, 0), "Imported 3 connections");
    assert_eq!(sshkeeper::ui::app::import_message(1, 2), "Imported 1 connections, 2 duplicates skipped");
}

#[test]
fn clearing_an_option_search_shows_every_option() {
    let actions = build_actions();
    let logs = actions.iter().find(|a| a.name == "Service Logs").unwrap().duplicate();
    let mut f = ParamFormState::new(logs);
    f.deliver_options(0, vec!["nginx.service".into(), "sshd.service".into(), "cron.service".into()]);
    f.handle_key(key(KeyCode::Enter));
    f.handle_key(key(KeyCode::Char('s')));
    f.handle_key(key(KeyCode::Char('s')));
    f.handle_key(key(KeyCode::Char('h')));
    match &f.fields[0].kind {
        FieldKind::Select { filtered, .. } => assert_eq!(filtered, &vec![1usize]),
        _ => panic!("expected a pick-one field"),
    }
    f.handle_key(key(KeyCode::Esc));
    match &f.fields[0].kind {
        FieldKind::Select { filtered, expanded, search, selected, .. } => {
            assert_eq!(filtered, &vec![0usize, 1, 2]);
            assert!(*expanded);
            assert!(search.value.is_empty());
            assert_eq!(*selected, 0);
        }
        _ => panic!("expected a pick-one field"),
    }
    f.handle_key(key(KeyCode::Esc));
    assert!(matches!(&f.fields[0].kind, FieldKind::Select { expanded: false, .. }));
}
