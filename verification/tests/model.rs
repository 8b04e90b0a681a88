use sshkeeper::model::connection::Connection;
use sshkeeper::model::store::ConnectionStore;

fn conn(name: &str, host: &str) -> Connection {
    Connection::new(name.to_string(), host.to_string())
}

#[test]
fn new_connection_defaults() {
    let c = conn("web", "example.com");
    assert_eq!(c.name, "web");
    assert_eq!(c.host, "example.com");
    assert_eq!(c.port, 22);
    assert_eq!(c.id.len(), 36);
    assert!(c.user.is_none() && c.identity_file.is_none() && c.group.is_none() && c.proxy_jump.is_none());
    assert!(c.tags.is_empty() && c.ssh_options.is_empty());
    assert_eq!(c.created_at, c.updated_at);
}

#[test]
fn fresh_ids_differ() {
    let a = conn("a", "h");
    let b = conn("a", "h");
    assert_ne!(a.id, b.id);
}

#[test]
fn ssh_command_plain() {
    assert_eq!(conn("web", "example.com").ssh_command(), "ssh example.com");
}

#[test]
fn ssh_command_full() {
    let mut c = conn("web", "example.com");
    c.port = 2222;
    c.user = Some("deploy".into());
    c.identity_file = Some("~/.ssh/id_ed25519".into());
    c.proxy_jump = Some("bastion".into());
    c.ssh_options = vec![
        ("ServerAliveInterval".to_string(), "30".to_string()),
        ("StrictHostKeyChecking".to_string(), "no".to_string()),
    ];
    assert_eq!(
        c.ssh_command(),
        "ssh -p 2222 -l deploy -i ~/.ssh/id_ed25519 -J bastion -o ServerAliveInterval=30 -o StrictHostKeyChecking=no example.com"
    );
}

#[test]
fn ssh_command_joins_the_argument_words() {
    let mut c = conn("web", "example.com");
    c.port = 2200;
    c.user = Some("root".into());
    let words = sshkeeper::ssh::system::SystemSshBackend::build_command(&c);
    assert_eq!(words.join(" "), c.ssh_command());
    assert_eq!(words, vec!["ssh", "-p", "2200", "-l", "root", "example.com"]);
}

#[test]
fn matches_query_fields() {
    let mut c = conn("Production DB", "db.example.com");
    c.group = Some("Work".into());
    c.tags = vec!["Postgres".into()];
    assert!(c.matches_query("prod"));
    assert!(c.matches_query("EXAMPLE"));
    assert!(c.matches_query("work"));
    assert!(c.matches_query("postgres"));
    assert!(c.matches_query(""));
    assert!(!c.matches_query("mysql"));
}

#[test]
fn duplicate_copies_everything() {
    let mut c = conn("web", "example.com");
    c.tags = vec!["a".into(), "b".into()];
    c.user = Some("u".into());
    let d = c.duplicate();
    assert_eq!(d.id, c.id);
    assert_eq!(d.tags, c.tags);
    assert_eq!(d.user, c.user);
    assert_eq!(d.created_at, c.created_at);
}

#[test]
fn store_add_keeps_names_sorted() {
    let mut s = ConnectionStore::new(Vec::new());
    s.add(conn("charlie", "c"));
    s.add(conn("alpha", "a"));
    s.add(conn("bravo", "b"));
    let names: Vec<&str> = s.all().iter().map(|c| c.name.as_str()).collect();
    assert_eq!(names, vec!["alpha", "bravo", "charlie"]);
}

#[test]
fn store_added_connection_is_found() {
    let mut s = ConnectionStore::new(vec![conn("x", "h")]);
    let c = conn("y", "h2");
    let id = c.id.clone();
    s.add(c);
    let found = s.find_by_id(&id).expect("added connection is found");
    assert_eq!(found.name, "y");
    assert!(s.find_by_id("no-such-id").is_none());
}

#[test]
fn store_remove() {
    let a = conn("a", "h");
    let b = conn("b", "h");
    let id_a = a.id.clone();
    let mut s = ConnectionStore::new(vec![a, b]);
    assert!(s.remove(&id_a));
    assert_eq!(s.all().len(), 1);
    assert!(s.find_by_id(&id_a).is_none());
    assert!(!s.remove(&id_a));
    assert_eq!(s.all().len(), 1);
}

#[test]
fn store_find_by_id_mut_changes_the_store() {
    let a = conn("a", "h");
    let id = a.id.clone();
    let mut s = ConnectionStore::new(vec![a]);
    if let Some(c) = s.find_by_id_mut(&id) {
        c.port = 2022;
    }
    assert_eq!(s.find_by_id(&id).unwrap().port, 2022);
}

#[test]
fn store_search() {
    let mut a = conn("alpha", "one.example");
    a.tags = vec!["blue".into()];
    let b = conn("beta", "two.example");
    let s = ConnectionStore::new(vec![a, b]);
    assert_eq!(s.search("").len(), 2);
    let r = s.search("BLUE");
    assert_eq!(r.len(), 1);
    assert_eq!(r[0].name, "alpha");
    assert_eq!(s.search("example").len(), 2);
    assert!(s.search("zzz").is_empty());
}

#[test]
fn store_groups_sorted_with_ungrouped_last() {
    let mut a = conn("a", "h");
    a.group = Some("work".into());
    let b = conn("b", "h");
    let mut c = conn("c", "h");
    c.group = Some("home".into());
    let mut d = conn("d", "h");
    d.group = Some("work".into());
    let s = ConnectionStore::new(vec![a, b, c, d]);
    assert_eq!(s.groups(), vec![Some("home".to_string()), Some("work".to_string()), None]);
}

#[test]
fn store_groups_without_ungrouped() {
    let mut a = conn("a", "h");
    a.group = Some("x".into());
    let s = ConnectionStore::new(vec![a]);
    assert_eq!(s.groups(), vec![Some("x".to_string())]);
    assert!(ConnectionStore::new(Vec::new()).groups().is_empty());
}

#[test]
fn options_in_order_checks_name_order() {
    let mut c = Connection::new("web".into(), "example.com".into());
    assert!(c.options_in_order());
    c.ssh_options = vec![("Compression".into(), "yes".into()), ("ServerAliveInterval".into(), "30".into())];
    assert!(c.options_in_order());
    c.ssh_options.reverse();
    assert!(!c.options_in_order());
    c.ssh_options = vec![("A".into(), "1".into()), ("A".into(), "2".into())];
    assert!(!c.options_in_order());
}
