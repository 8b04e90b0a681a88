use sshkeeper::model::connection::Connection;
use sshkeeper::ssh::transfer::TransferDirection;
use sshkeeper::storage::import::{has_wildcard, host_settings, import_hosts, HostSettings, QueriedParams};
use sshkeeper::storage::toml_storage::TomlStorage;
use sshkeeper::storage::transfer_history::{HistoryFile, TransferEntry, TransferHistory, MAX_ENTRIES_PER_CONNECTION};

#[test]
fn storage_path_in_config_dir() {
    assert_eq!(TomlStorage::new("/home/me/.config/sshkeeper").path, "/home/me/.config/sshkeeper/connections.toml");
    assert_eq!(TomlStorage::new("/cfg/").path, "/cfg/connections.toml");
    assert_eq!(TomlStorage::new("").path, "connections.toml");
}

#[test]
fn save_then_load_gives_the_connections_by_name() {
    let b = Connection::new("bravo".into(), "b".into());
    let a = Connection::new("alpha".into(), "a".into());
    let file = TomlStorage::save(&[b.duplicate(), a.duplicate()]);
    assert_eq!(file.connections.len(), 2);
    assert!(file.connections[0].0 < file.connections[1].0);
    let loaded = TomlStorage::load(file);
    let names: Vec<&str> = loaded.iter().map(|c| c.name.as_str()).collect();
    assert_eq!(names, vec!["alpha", "bravo"]);
    assert_eq!(loaded[0].id, a.id);
    assert_eq!(loaded[1].id, b.id);
}

#[test]
fn save_keeps_the_last_connection_of_an_id() {
    let a = Connection::new("first".into(), "a".into());
    let mut a2 = a.duplicate();
    a2.name = "second".into();
    let file = TomlStorage::save(&[a, a2]);
    assert_eq!(file.connections.len(), 1);
    assert_eq!(file.connections[0].1.name, "second");
}

#[test]
fn save_then_load_keeps_last_per_id_and_orders_equal_names_by_id() {
    let mut x = Connection::new("same".into(), "x".into());
    x.id = "b-id".into();
    let mut y = Connection::new("same".into(), "y".into());
    y.id = "a-id".into();
    let mut x2 = x.duplicate();
    x2.host = "x2".into();
    let mut z = Connection::new("alpha".into(), "z".into());
    z.id = "c-id".into();
    let loaded = TomlStorage::load(TomlStorage::save(&[x, y, z, x2]));
    let got: Vec<(&str, &str, &str)> = loaded.iter().map(|c| (c.name.as_str(), c.id.as_str(), c.host.as_str())).collect();
    assert_eq!(got, vec![("alpha", "c-id", "z"), ("same", "a-id", "y"), ("same", "b-id", "x2")]);
}

#[test]
fn host_settings_take_the_first_identity_file() {
    let q = QueriedParams {
        host_name: Some("h".into()),
        port: Some(2200),
        user: None,
        identity_files: Some(vec!["/k1".into(), "/k2".into()]),
    };
    let s = host_settings(q);
    assert_eq!(s.identity_file.as_deref(), Some("/k1"));
    assert_eq!(s.port, Some(2200));
    let none = host_settings(QueriedParams { host_name: None, port: None, user: None, identity_files: Some(vec![]) });
    assert!(none.identity_file.is_none());
}

#[test]
fn transfer_entry_direction_roundtrip() {
    let up = TransferEntry::new(TransferDirection::Upload, "/l".into(), "/r".into(), false);
    assert_eq!(up.direction, "upload");
    assert_eq!(up.transfer_direction(), TransferDirection::Upload);
    let down = TransferEntry::new(TransferDirection::Download, "/l".into(), "/r".into(), true);
    assert_eq!(down.direction, "download");
    assert_eq!(down.transfer_direction(), TransferDirection::Download);
    let mut odd = down.duplicate();
    odd.direction = "sideways".into();
    assert_eq!(odd.transfer_direction(), TransferDirection::Upload);
}

#[test]
fn history_keeps_the_last_ten_per_connection() {
    let mut h = TransferHistory::new(HistoryFile { connections: Vec::new() });
    for i in 0..12 {
        h.push("c1", TransferEntry::new(TransferDirection::Upload, format!("/l{}", i), "/r".into(), false));
    }
    h.push("c2", TransferEntry::new(TransferDirection::Download, "/x".into(), "/y".into(), false));
    let e1 = h.entries_for("c1");
    assert_eq!(e1.len(), MAX_ENTRIES_PER_CONNECTION);
    assert_eq!(e1[0].local_path, "/l2");
    assert_eq!(e1[9].local_path, "/l11");
    assert_eq!(h.entries_for("c2").len(), 1);
    assert!(h.entries_for("c3").is_empty());
}

#[test]
fn history_file_roundtrip() {
    let mut h = TransferHistory::new(HistoryFile { connections: Vec::new() });
    h.push("b", TransferEntry::new(TransferDirection::Upload, "/1".into(), "/2".into(), false));
    h.push("a", TransferEntry::new(TransferDirection::Upload, "/3".into(), "/4".into(), true));
    let f = h.to_file();
    assert_eq!(f.connections.len(), 2);
    assert_eq!(f.connections[0].0, "a");
    let h2 = TransferHistory::new(f);
    assert_eq!(h2.entries_for("a")[0].remote_path, "/4");
    assert_eq!(h2.entries_for("b")[0].local_path, "/1");
}

fn settings(host_name: Option<&str>, port: Option<u16>, user: Option<&str>) -> HostSettings {
    let mut s = HostSettings::unset();
    s.host_name = host_name.map(|x| x.to_string());
    s.port = port;
    s.user = user.map(|x| x.to_string());
    s
}

#[test]
fn wildcards() {
    assert!(has_wildcard("*.example.com"));
    assert!(has_wildcard("web?"));
    assert!(!has_wildcard("web1"));
}

#[test]
fn import_skips_wildcards_and_duplicates() {
    let mut existing = Connection::new("old".into(), "10.0.0.1".into());
    existing.user = Some("root".into());
    let hosts = vec![
        ("*".to_string(), HostSettings::unset()),
        ("box".to_string(), settings(Some("10.0.0.1"), None, Some("root"))),
        ("web".to_string(), settings(Some("web.example.com"), Some(2222), Some("deploy"))),
        ("plain".to_string(), HostSettings::unset()),
    ];
    let r = import_hosts(&[existing], hosts);
    assert_eq!(r.skipped_wildcards, vec!["*".to_string()]);
    assert_eq!(r.skipped_duplicates, vec!["box".to_string()]);
    assert_eq!(r.imported.len(), 2);
    assert_eq!(r.imported[0].name, "web");
    assert_eq!(r.imported[0].host, "web.example.com");
    assert_eq!(r.imported[0].port, 2222);
    assert_eq!(r.imported[0].user.as_deref(), Some("deploy"));
    assert_eq!(r.imported[1].name, "plain");
    assert_eq!(r.imported[1].host, "plain");
    assert_eq!(r.imported[1].port, 22);
}
