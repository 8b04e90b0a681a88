use sshkeeper::model::connection::Connection;
use sshkeeper::ui::file_tree::{visible_scroll, FileTree, FileTreeAction};
use sshkeeper::ui::input::{Key, KeyCode};
use sshkeeper::ui::listing::{sort_listing, DirEntry};
use sshkeeper::ui::remote_file_tree::{
    home_from_output, list_command, list_failure, needs_home, parse_listing, quote_always,
    remote_command, remote_parent, resolve_root, RemoteFileTree, RemoteTreeAction,
};
use sshkeeper::ui::transfer::{Pane, TransferAction, TransferScreen};
use sshkeeper::ssh::transfer::TransferDirection;

fn entry(dir: &str, name: &str, is_dir: bool) -> DirEntry {
    DirEntry { path: format!("{}/{}", dir, name), name: name.to_string(), is_dir }
}

fn key(code: KeyCode) -> Key {
    Key::plain(code)
}

fn sample_tree() -> FileTree {
    FileTree::new(
        Some("/home".to_string()),
        vec![entry("/home/me", "docs", true), entry("/home/me", "a.txt", false)],
    )
}

#[test]
fn listing_order_and_hidden_entries() {
    let entries = vec![
        entry("/d", "b.txt", false),
        entry("/d", ".hidden", false),
        entry("/d", "Zdir", true),
        entry("/d", "A.txt", false),
        entry("/d", "adir", true),
    ];
    let shown: Vec<String> = sort_listing(entries, false).into_iter().map(|e| e.name).collect();
    assert_eq!(shown, vec!["adir", "Zdir", "A.txt", "b.txt"]);
    let all = vec![entry("/d", ".x", false), entry("/d", "y", false)];
    assert_eq!(sort_listing(all, true).len(), 2);
}

#[test]
fn new_tree_lines() {
    let t = sample_tree();
    let names: Vec<&str> = t.nodes.iter().map(|n| n.name.as_str()).collect();
    assert_eq!(names, vec!["..", "docs", "a.txt"]);
    assert_eq!(t.nodes[0].path, "/home");
    assert_eq!(t.cursor, 0);
    assert!(!t.is_jump_mode());
    let root = FileTree::new(None, vec![entry("", "etc", true)]);
    assert_eq!(root.nodes.len(), 1);
}

#[test]
fn expand_insert_and_collapse() {
    let mut t = sample_tree();
    let a = t.expand(1);
    match a {
        FileTreeAction::ListChildren { index, path } => {
            assert_eq!(index, 1);
            assert_eq!(path, "/home/me/docs");
        }
        _ => panic!("expected a listing request"),
    }
    assert!(t.nodes[1].expanded && t.nodes[1].children_loaded);
    t.insert_children(1, vec![entry("/home/me/docs", "x.md", false), entry("/home/me/docs", "y.md", false)]);
    let names: Vec<&str> = t.nodes.iter().map(|n| n.name.as_str()).collect();
    assert_eq!(names, vec!["..", "docs", "x.md", "y.md", "a.txt"]);
    assert_eq!(t.nodes[2].depth, 1);
    t.collapse(1);
    let names: Vec<&str> = t.nodes.iter().map(|n| n.name.as_str()).collect();
    assert_eq!(names, vec!["..", "docs", "a.txt"]);
    assert!(!t.nodes[1].expanded);
    assert!(t.nodes[1].children_loaded);
}

#[test]
fn expand_up_line_asks_for_the_parent() {
    let mut t = sample_tree();
    match t.expand(0) {
        FileTreeAction::LoadRoot { path } => assert_eq!(path, "/home"),
        _ => panic!("expected a new root"),
    }
    assert!(matches!(t.expand(2), FileTreeAction::Nothing));
    assert!(matches!(t.expand(9), FileTreeAction::Nothing));
}

#[test]
fn keys_move_and_select() {
    let mut t = sample_tree();
    t.handle_key(key(KeyCode::Down));
    t.handle_key(key(KeyCode::Char('j')));
    assert_eq!(t.cursor, 2);
    t.handle_key(key(KeyCode::Down));
    assert_eq!(t.cursor, 2);
    match t.handle_key(key(KeyCode::Char(' '))) {
        FileTreeAction::Selected { path, is_dir } => {
            assert_eq!(path, "/home/me/a.txt");
            assert!(!is_dir);
        }
        _ => panic!("expected a selection"),
    }
    assert_eq!(t.selected_path.as_deref(), Some("/home/me/a.txt"));
    t.handle_key(key(KeyCode::Char('g')));
    assert_eq!(t.cursor, 0);
    assert!(matches!(t.handle_key(key(KeyCode::Char(' '))), FileTreeAction::Nothing));
    t.handle_key(key(KeyCode::Char('G')));
    assert_eq!(t.cursor, 2);
    t.handle_key(key(KeyCode::Up));
    assert_eq!(t.cursor, 1);
}

#[test]
fn keys_expand_then_left_collapses_and_goes_up() {
    let mut t = sample_tree();
    t.handle_key(key(KeyCode::Down));
    let a = t.handle_key(key(KeyCode::Enter));
    assert!(matches!(a, FileTreeAction::ListChildren { index: 1, .. }));
    t.insert_children(1, vec![entry("/home/me/docs", "x.md", false)]);
    t.handle_key(key(KeyCode::Right));
    assert_eq!(t.cursor, 2);
    t.handle_key(key(KeyCode::Left));
    assert_eq!(t.cursor, 1);
    t.handle_key(key(KeyCode::Left));
    assert_eq!(t.nodes.len(), 3);
    match t.handle_key(key(KeyCode::Backspace)) {
        FileTreeAction::LoadRoot { path } => assert_eq!(path, "/home"),
        _ => panic!("expected a new root"),
    }
}

#[test]
fn hidden_toggle_and_path_prompt() {
    let mut t = sample_tree();
    assert!(matches!(t.handle_key(key(KeyCode::Char('h'))), FileTreeAction::Reload));
    assert!(t.show_hidden);
    t.handle_key(key(KeyCode::Char('/')));
    assert!(t.is_jump_mode());
    for c in "/tmpx".chars() {
        t.handle_key(key(KeyCode::Char(c)));
    }
    t.handle_key(key(KeyCode::Backspace));
    match t.handle_key(key(KeyCode::Enter)) {
        FileTreeAction::JumpTo { path } => assert_eq!(path, "/tmp"),
        _ => panic!("expected a jump"),
    }
    assert!(!t.is_jump_mode());
    assert!(t.jump_input.is_empty());
    t.handle_key(key(KeyCode::Char('/')));
    t.handle_key(key(KeyCode::Char('x')));
    assert!(matches!(t.handle_key(key(KeyCode::Esc)), FileTreeAction::Nothing));
    assert!(!t.is_jump_mode());
}

#[test]
fn current_root_and_select_name() {
    let mut t = sample_tree();
    assert_eq!(t.current_root().as_deref(), Some("/home"));
    t.select_name("a.txt");
    assert_eq!(t.cursor, 2);
    t.select_name("missing");
    assert_eq!(t.cursor, 2);
    let flat = FileTree::new(None, vec![entry("/srv", "x", false)]);
    assert_eq!(flat.current_root().as_deref(), Some("/srv"));
}

#[test]
fn scrolling() {
    assert_eq!(visible_scroll(3, 5, 10), 3);
    assert_eq!(visible_scroll(20, 5, 10), 11);
    assert_eq!(visible_scroll(7, 5, 10), 5);
    let mut t = sample_tree();
    t.cursor = 2;
    t.scroll_offset = 0;
    t.ensure_cursor_visible(2);
    assert_eq!(t.scroll_offset, 1);
    t.ensure_cursor_visible(0);
    assert_eq!(t.scroll_offset, 1);
}

#[test]
fn remote_paths_and_commands() {
    assert_eq!(remote_parent("/"), None);
    assert_eq!(remote_parent("/home").as_deref(), Some("/"));
    assert_eq!(remote_parent("/home/me/").as_deref(), Some("/home"));
    assert_eq!(remote_parent("relative").as_deref(), Some("~"));
    assert!(needs_home("~") && needs_home("~/x") && !needs_home("/x"));
    assert_eq!(resolve_root("~", Some("/home/me".into())), "/home/me");
    assert_eq!(resolve_root("~/src", Some("/home/me".into())), "/home/me/src");
    assert_eq!(resolve_root("~", None), "~");
    assert_eq!(resolve_root("/etc", Some("/home/me".into())), "/etc");
    assert_eq!(list_command("~"), "ls -1pa $HOME");
    assert_eq!(list_command("~/src"), "ls -1pa $HOME/src");
    assert_eq!(list_command("/it's"), "ls -1pa '/it'\\''s'");
    assert_eq!(quote_always("a b"), "'a b'");
    assert_eq!(home_from_output("/home/me\n").as_deref(), Some("/home/me"));
    assert_eq!(home_from_output("  \n"), None);
    assert_eq!(list_failure("No such file\n"), "ls failed: No such file");
    let mut c = Connection::new("w".into(), "h".into());
    c.port = 2022;
    assert_eq!(
        remote_command(&c, "echo $HOME"),
        vec!["ssh", "-o", "BatchMode=yes", "-o", "LogLevel=ERROR", "-p", "2022", "h", "echo $HOME"]
    );
}

#[test]
fn reading_ls_output() {
    let out = "./\n../\n.bashrc\nsrc/\nREADME.md\n  notes.txt \r\n\nbin/\n";
    let shown = parse_listing("/home/me", out, false);
    let names: Vec<(&str, bool)> = shown.iter().map(|e| (e.name.as_str(), e.is_dir)).collect();
    assert_eq!(names, vec![("bin", true), ("src", true), ("notes.txt", false), ("README.md", false)]);
    assert_eq!(shown[0].path, "/home/me/bin");
    let with_hidden = parse_listing("/", out, true);
    assert_eq!(with_hidden.len(), 5);
    assert_eq!(with_hidden[2].path, "/.bashrc");
}

fn remote_tree() -> RemoteFileTree {
    let c = Connection::new("web".into(), "example.com".into());
    let listing = parse_listing("/home/me", "src/\nREADME.md\n", false);
    RemoteFileTree::new(c, "/home/me".into(), Ok(listing))
}

#[test]
fn remote_tree_load_expand_and_errors() {
    let mut t = remote_tree();
    let names: Vec<&str> = t.nodes.iter().map(|n| n.name.as_str()).collect();
    assert_eq!(names, vec!["..", "src", "README.md"]);
    assert_eq!(t.nodes[0].path, "/home");
    assert_eq!(t.current_root, "/home/me");
    t.handle_key(key(KeyCode::Down));
    match t.handle_key(key(KeyCode::Enter)) {
        RemoteTreeAction::ListChildren { index, path } => {
            assert_eq!(index, 1);
            assert_eq!(path, "/home/me/src");
        }
        _ => panic!("expected a listing request"),
    }
    assert!(!t.nodes[1].expanded);
    t.insert_children(1, Err("ls failed: denied".into()));
    assert_eq!(t.loading_error.as_deref(), Some("ls failed: denied"));
    assert_eq!(t.nodes.len(), 3);
    t.insert_children(1, Ok(parse_listing("/home/me/src", "main.rs\n", false)));
    assert!(t.nodes[1].expanded);
    assert_eq!(t.nodes[2].path, "/home/me/src/main.rs");
    assert_eq!(t.nodes[2].depth, 1);
    t.collapse(1);
    assert_eq!(t.nodes.len(), 3);
    match t.handle_key(key(KeyCode::Char('h'))) {
        RemoteTreeAction::LoadRoot { path } => assert_eq!(path, "/home/me"),
        _ => panic!("expected a reload"),
    }
    t.load_root("/".into(), Err("ls failed: x".into()));
    assert!(t.nodes.is_empty());
    assert_eq!(t.loading_error.as_deref(), Some("ls failed: x"));
}

#[test]
fn remote_path_prompt() {
    let mut t = remote_tree();
    t.handle_key(key(KeyCode::Char('/')));
    assert!(t.is_jump_mode());
    for c in "~/x".chars() {
        t.handle_key(key(KeyCode::Char(c)));
    }
    match t.handle_key(key(KeyCode::Enter)) {
        RemoteTreeAction::LoadRoot { path } => assert_eq!(path, "~/x"),
        _ => panic!("expected a new root"),
    }
}

#[test]
fn transfer_screen_keys() {
    let local = FileTree::new(Some("/".into()), vec![entry("/tmp", "a.txt", false), entry("/tmp", "d", true)]);
    let mut s = TransferScreen::new(local, remote_tree());
    assert_eq!(s.connection_name, "web");
    assert_eq!(s.direction, TransferDirection::Upload);
    assert!(matches!(s.handle_key(key(KeyCode::Char('d'))), TransferAction::Nothing));
    assert_eq!(s.direction, TransferDirection::Download);
    s.handle_key(key(KeyCode::Char('d')));
    s.handle_key(key(KeyCode::Char('r')));
    assert!(s.recursive);
    s.handle_key(key(KeyCode::Char('r')));
    s.handle_key(key(KeyCode::Down));
    s.handle_key(key(KeyCode::Char(' ')));
    assert_eq!(s.local_path.as_deref(), Some("/tmp/a.txt"));
    assert!(!s.recursive);
    s.handle_key(key(KeyCode::Tab));
    assert_eq!(s.focused_pane, Pane::Remote);
    s.handle_key(key(KeyCode::Down));
    s.handle_key(key(KeyCode::Char(' ')));
    assert_eq!(s.remote_path.as_deref(), Some("/home/me/src"));
    assert!(s.recursive);
    s.handle_key(key(KeyCode::Down));
    match s.handle_key(key(KeyCode::Enter)) {
        TransferAction::Execute { local_path, remote_path, direction, recursive } => {
            assert_eq!(local_path, "/tmp/a.txt");
            assert_eq!(remote_path, "/home/me/src");
            assert_eq!(direction, TransferDirection::Upload);
            assert!(recursive);
        }
        _ => panic!("expected a transfer"),
    }
    assert!(matches!(s.handle_key(key(KeyCode::Esc)), TransferAction::Cancel));
}

#[test]
fn transfer_screen_hands_up_tree_requests() {
    let local = FileTree::new(Some("/".into()), vec![entry("/tmp", "d", true)]);
    let mut s = TransferScreen::new(local, remote_tree());
    s.handle_key(key(KeyCode::Down));
    match s.handle_key(key(KeyCode::Enter)) {
        TransferAction::Local(FileTreeAction::ListChildren { index, path }) => {
            assert_eq!(index, 1);
            assert_eq!(path, "/tmp/d");
        }
        _ => panic!("expected a local listing request"),
    }
}

#[test]
fn jump_to_a_directory_or_a_file() {
    let mut t = sample_tree();
    t.jump_to_path("/srv/www", true, vec![entry("/srv/www", "index.html", false)]);
    let names: Vec<&str> = t.nodes.iter().map(|n| n.name.as_str()).collect();
    assert_eq!(names, vec!["..", "index.html"]);
    assert_eq!(t.nodes[0].path, "/srv");
    t.jump_to_path("/etc/hosts", false, vec![entry("/etc", "fstab", false), entry("/etc", "hosts", false)]);
    assert_eq!(t.nodes[0].path, "/");
    assert_eq!(t.cursor, 2);
    assert_eq!(t.nodes[2].name, "hosts");
}
