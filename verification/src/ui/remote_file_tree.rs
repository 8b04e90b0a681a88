//! The remote file tree of the transfer screen. Listings come from running
//! `ls -1pa` over SSH; the tree reads that output, builds the commands, and
//! asks its caller to run them through its actions.
use vstd::prelude::*;
use crate::model::connection::{ssh_option_args, push_ssh_option_args, Connection};
use crate::paths::{child_path, join_child, last_index, strip_trailing, trim_end_char};
use crate::text::{
    opt_view, owned, push_char, push_text, replace_all, replace_text, split_on, split_text,
    starts_with, text_eq, text_starts_with, trim, trimmed, views, without_last, chars_of,
    string_of_range,
};
use crate::ui::file_tree::{
    children_inserted, collapsed, cursor_ok, entry_nodes, lemma_collapsed_len,
    lemma_parent_line_bound, parent_line, up_name, TreeNodeView, MAX_ENTRIES_PER_DIR,
};
use crate::ui::input::{Key, KeyCode};
use crate::ui::listing::{dir_views, shown_listing, sort_listing, DirEntry, DirEntryView};

verus! {

/// A line of the remote tree.
pub struct RemoteNode {
    pub path: String,
    pub name: String,
    pub is_dir: bool,
    pub depth: usize,
    pub expanded: bool,
}

/// The line as the local tree describes its lines (a remote line never
/// records a loaded listing).
pub open spec fn remote_view(n: RemoteNode) -> TreeNodeView {
    TreeNodeView {
        path: n.path@,
        name: n.name@,
        is_dir: n.is_dir,
        depth: n.depth,
        expanded: n.expanded,
        children_loaded: false,
    }
}

/// The views of the lines of a remote tree.
pub open spec fn remote_views(v: Seq<RemoteNode>) -> Seq<TreeNodeView> {
    v.map_values(|n: RemoteNode| remote_view(n))
}

/// What the remote tree asks of its caller, or reports.
pub enum RemoteTreeAction {
    /// Nothing.
    Nothing,
    /// A line was selected.
    Selected { path: String, is_dir: bool },
    /// List remote directory `path` and hand the result to `insert_children`
    /// for line `index`.
    ListChildren { index: usize, path: String },
    /// Show remote directory `path` as the root: resolve it, list it and hand
    /// the result to `load_root`.
    LoadRoot { path: String },
}

/// The remote file tree.
pub struct RemoteFileTree {
    pub nodes: Vec<RemoteNode>,
    pub cursor: usize,
    pub selected_path: Option<String>,
    pub show_hidden: bool,
    pub scroll_offset: usize,
    pub current_root: String,
    pub loading_error: Option<String>,
    pub conn: Connection,
    pub jump_mode: bool,
    pub jump_input: String,
}

// ---------------------------------------------------------------------------
// Remote paths and commands
// ---------------------------------------------------------------------------

/// The directory above a remote root: none for `/`; else, trailing slashes
/// ignored, the part before the last slash (`/` when that slash is the
/// first character), or `~` when there is no slash.
pub open spec fn remote_parent_spec(root: Seq<char>) -> Option<Seq<char>> {
    if root == "/"@ {
        None
    } else {
        let t = trim_end_char(root, '/');
        match last_index(t, '/') {
            Some(k) => if k == 0 { Some("/"@) } else { Some(t.take(k)) },
            None => Some("~"@),
        }
    }
}

proof fn lemma_last_index_bound(s: Seq<char>, c: char)
    ensures
        last_index(s, c) matches Some(k) ==> 0 <= k < s.len(),
    decreases s.len(),
{
    if s.len() > 0 && s.last() != c {
        lemma_last_index_bound(s.drop_last(), c);
    }
}

/// The directory above a remote root.
pub fn remote_parent(root: &str) -> (r: Option<String>)
    ensures
        opt_view(r) == remote_parent_spec(root@),
{
    proof {
        reveal_strlit("/");
        reveal_strlit("~");
    }
    if text_eq(root, "/") {
        return None;
    }
    let t = strip_trailing(root, '/');
    let v = chars_of(t.as_str());
    let mut j = v.len();
    assert(v@.take(v.len() as int) =~= v@);
    while j > 0 && v[j - 1] != '/'
        invariant
            j <= v.len(),
            v@ == t@,
            last_index(v@, '/') == last_index(v@.take(j as int), '/'),
        decreases j,
    {
        assert(v@.take(j as int).drop_last() =~= v@.take(j - 1));
        j = j - 1;
    }
    assert(v@.take(v.len() as int) =~= v@);
    if j == 0 {
        assert(v@.take(0) =~= Seq::<char>::empty());
        return Some(owned("~"));
    }
    assert(v@.take(j as int).last() == v@[j - 1]);
    assert(last_index(v@, '/') == Some(j - 1));
    if j - 1 == 0 {
        Some(owned("/"))
    } else {
        assert(v@.take(j - 1) =~= v@.subrange(0, j - 1));
        Some(string_of_range(&v, 0, j - 1))
    }
}

/// Whether a root names the remote home directory (`~` or `~/...`).
pub open spec fn names_home(root: Seq<char>) -> bool {
    root == "~"@ || starts_with(root, "~/"@)
}

/// Whether a root needs the remote home directory to be resolved.
pub fn needs_home(root: &str) -> (r: bool)
    ensures
        r == names_home(root@),
{
    text_eq(root, "~") || text_starts_with(root, "~/")
}

/// A root with `~` replaced by the remote home directory, when it is known.
pub open spec fn resolved_root(root: Seq<char>, home: Option<Seq<char>>) -> Seq<char> {
    match home {
        Some(h) => if root == "~"@ {
            h
        } else if starts_with(root, "~/"@) {
            h + "/"@ + root.skip(2)
        } else {
            root
        },
        None => root,
    }
}

/// Replaces `~` in a root by the remote home directory, when it is known.
pub fn resolve_root(root: &str, home: Option<String>) -> (r: String)
    ensures
        r@ == resolved_root(root@, opt_view(home)),
{
    proof {
        reveal_strlit("~");
        reveal_strlit("~/");
        reveal_strlit("/");
    }
    match home {
        Some(h) => {
            if text_eq(root, "~") {
                h
            } else if text_starts_with(root, "~/") {
                let v = chars_of(root);
                let rest = string_of_range(&v, 2, v.len());
                assert(v@.subrange(2, v.len() as int) =~= root@.skip(2));
                let mut r = h;
                push_text(&mut r, "/");
                push_text(&mut r, rest.as_str());
                r
            } else {
                owned(root)
            }
        },
        None => owned(root),
    }
}

/// A value in single quotes for the remote shell, each single quote
/// written as `'\''`.
pub open spec fn quoted(s: Seq<char>) -> Seq<char> {
    "'"@ + replace_all(s, "'"@, "'\\''"@) + "'"@
}

/// Quotes a value for the remote shell.
pub fn quote_always(s: &str) -> (r: String)
    ensures
        r@ == quoted(s@),
{
    proof {
        reveal_strlit("'");
    }
    let mut r = owned("'");
    let body = replace_text(s, "'", "'\\''");
    push_text(&mut r, body.as_str());
    push_text(&mut r, "'");
    r
}

/// The remote command that lists directory `dir`: the home directory goes
/// through `$HOME` so that the remote shell expands it; any other directory
/// is quoted.
pub open spec fn list_command_text(dir: Seq<char>) -> Seq<char> {
    "ls -1pa "@ + if dir == "~"@ {
        "$HOME"@
    } else if starts_with(dir, "~/"@) {
        "$HOME/"@ + dir.skip(2)
    } else {
        quoted(dir)
    }
}

/// The remote command that lists directory `dir`.
pub fn list_command(dir: &str) -> (r: String)
    ensures
        r@ == list_command_text(dir@),
{
    proof {
        reveal_strlit("~");
        reveal_strlit("~/");
    }
    let mut r = owned("ls -1pa ");
    if text_eq(dir, "~") {
        push_text(&mut r, "$HOME");
    } else if text_starts_with(dir, "~/") {
        push_text(&mut r, "$HOME/");
        let v = chars_of(dir);
        let rest = string_of_range(&v, 2, v.len());
        assert(v@.subrange(2, v.len() as int) =~= dir@.skip(2));
        push_text(&mut r, rest.as_str());
        assert(r@ =~= list_command_text(dir@));
    } else {
        let q = quote_always(dir);
        push_text(&mut r, q.as_str());
    }
    r
}

/// The words of the `ssh` command that runs `remote_cmd` without prompts:
/// batch mode and error-only logging, then the connection's options, host
/// and the remote command.
pub open spec fn remote_command_args(c: crate::model::connection::ConnectionView, remote_cmd: Seq<char>) -> Seq<Seq<char>> {
    seq!["ssh"@, "-o"@, "BatchMode=yes"@, "-o"@, "LogLevel=ERROR"@] + ssh_option_args(c) + seq![c.host, remote_cmd]
}

/// The words of the `ssh` command that runs `remote_cmd` on the connection.
pub fn remote_command(conn: &Connection, remote_cmd: &str) -> (args: Vec<String>)
    requires
        crate::model::connection::options_in_key_order(conn@.ssh_options),
    ensures
        views(args@) == remote_command_args(conn@, remote_cmd@),
{
    let mut args: Vec<String> = Vec::new();
    args.push(owned("ssh"));
    args.push(owned("-o"));
    args.push(owned("BatchMode=yes"));
    args.push(owned("-o"));
    args.push(owned("LogLevel=ERROR"));
    let ghost a0 = views(args@);
    push_ssh_option_args(&mut args, conn);
    let ghost a1 = views(args@);
    args.push(conn.host.clone());
    args.push(owned(remote_cmd));
    assert(views(args@) =~= a1 + seq![conn.host@, remote_cmd@]);
    assert(a0 =~= seq!["ssh"@, "-o"@, "BatchMode=yes"@, "-o"@, "LogLevel=ERROR"@]);
    args
}

/// The remote home directory from the output of `echo $HOME`: the trimmed
/// output, unless it is empty.
pub open spec fn home_from(stdout: Seq<char>) -> Option<Seq<char>> {
    if trim(stdout).len() == 0 { None } else { Some(trim(stdout)) }
}

/// Reads the remote home directory from the output of `echo $HOME`.
pub fn home_from_output(stdout: &str) -> (r: Option<String>)
    ensures
        opt_view(r) == home_from(stdout@),
{
    let t = trimmed(stdout);
    if t.as_str().is_empty() {
        None
    } else {
        Some(t)
    }
}

/// The message for a listing that failed: `ls failed: ` and the trimmed
/// error output.
pub fn list_failure(stderr: &str) -> (r: String)
    ensures
        r@ == "ls failed: "@ + trim(stderr@),
{
    let mut r = owned("ls failed: ");
    let t = trimmed(stderr);
    push_text(&mut r, t.as_str());
    r
}

// ---------------------------------------------------------------------------
// Reading `ls -1pa` output
// ---------------------------------------------------------------------------

/// The entry named by one line of `ls -1pa` output, if it names one: the
/// line is trimmed, `./` and `../` are skipped, and a trailing slash marks
/// a directory.
pub open spec fn listed_line(line: Seq<char>) -> Option<(Seq<char>, bool)> {
    let t = trim(line);
    if t.len() == 0 || t == "./"@ || t == "../"@ {
        None
    } else {
        let is_dir = t.last() == '/';
        let name = if is_dir { trim_end_char(t, '/') } else { t };
        if name.len() == 0 { None } else { Some((name, is_dir)) }
    }
}

/// The entries named by lines of `ls -1pa` output for directory `dir`.
pub open spec fn listed_entries(dir: Seq<char>, lines: Seq<Seq<char>>) -> Seq<DirEntryView>
    decreases lines.len(),
{
    if lines.len() == 0 {
        Seq::empty()
    } else {
        let rest = listed_entries(dir, lines.drop_last());
        match listed_line(lines.last()) {
            Some((name, is_dir)) => rest.push(DirEntryView { path: child_path(dir, name), name, is_dir }),
            None => rest,
        }
    }
}

/// The listing of remote directory `dir` from the output of `ls -1pa`:
/// the entries its lines name, hidden ones dropped unless `show_hidden`,
/// directories first, then by name ignoring case.
pub open spec fn remote_listing(dir: Seq<char>, stdout: Seq<char>, show_hidden: bool) -> Seq<DirEntryView> {
    shown_listing(listed_entries(dir, split_on(stdout, '\n')), show_hidden)
}

/// Reads one line of `ls -1pa` output.
fn read_line(line: &str) -> (r: Option<(String, bool)>)
    ensures
        match listed_line(line@) {
            Some((name, is_dir)) => r matches Some((n, d)) && n@ == name && d == is_dir,
            None => r is None,
        },
{
    proof {
        reveal_strlit("./");
        reveal_strlit("../");
    }
    let t = trimmed(line);
    if t.as_str().is_empty() || text_eq(t.as_str(), "./") || text_eq(t.as_str(), "../") {
        return None;
    }
    let v = chars_of(t.as_str());
    let is_dir = v[v.len() - 1] == '/';
    assert(t@.last() == v@[v.len() - 1]);
    let name = if is_dir { strip_trailing(t.as_str(), '/') } else { t };
    if name.as_str().is_empty() {
        None
    } else {
        Some((name, is_dir))
    }
}

/// The listing of remote directory `dir` from the output of `ls -1pa`.
pub fn parse_listing(dir: &str, stdout: &str, show_hidden: bool) -> (r: Vec<DirEntry>)
    ensures
        dir_views(r@) == remote_listing(dir@, stdout@, show_hidden),
{
    let lines = split_text(stdout, '\n');
    let ghost ls = views(lines@);
    let mut found: Vec<DirEntry> = Vec::new();
    let mut i: usize = 0;
    while i < lines.len()
        invariant
            i <= lines.len(),
            ls == views(lines@),
            ls == split_on(stdout@, '\n'),
            dir_views(found@) == listed_entries(dir@, ls.take(i as int)),
        decreases lines.len() - i,
    {
        assert(ls.take(i + 1).drop_last() =~= ls.take(i as int));
        assert(ls.take(i + 1).last() == lines@[i as int]@);
        let ghost prev = found@;
        match read_line(lines[i].as_str()) {
            Some((name, is_dir)) => {
                let path = join_child(dir, name.as_str());
                found.push(DirEntry { path, name, is_dir });
                assert(dir_views(found@) =~= dir_views(prev).push(found@.last()@));
            },
            None => {},
        }
        i = i + 1;
    }
    assert(ls.take(lines.len() as int) =~= ls);
    sort_listing(found, show_hidden)
}

// ---------------------------------------------------------------------------
// The tree
// ---------------------------------------------------------------------------

/// What `expand` does on the remote lines `n`: the action, the lines being
/// left as they are until the listing arrives.
pub open spec fn remote_expand_spec(n: Seq<TreeNodeView>, index: int, a: RemoteTreeAction) -> bool {
    if index < 0 || index >= n.len() || !n[index].is_dir || (n[index].name != up_name() && n[index].expanded) {
        a is Nothing
    } else if n[index].name == up_name() {
        a matches RemoteTreeAction::LoadRoot { path } && path@ == n[index].path
    } else {
        a matches RemoteTreeAction::ListChildren { index: i, path } && i == index && path@ == n[index].path
    }
}

/// What `go_to_parent` does on remote lines `n`: the new cursor and the
/// action, from the old cursor.
pub open spec fn remote_parent_step(n: Seq<TreeNodeView>, index: int, cursor: usize, cursor2: usize, a: RemoteTreeAction) -> bool {
    if index < 0 || index >= n.len() {
        a is Nothing && cursor2 == cursor
    } else if n[index].depth == 0 {
        cursor2 == cursor && if n[0].name == up_name() {
            a matches RemoteTreeAction::LoadRoot { path } && path@ == n[0].path
        } else {
            a is Nothing
        }
    } else {
        a is Nothing && cursor2 == match parent_line(n, index, index) {
            Some(i) => i as usize,
            None => cursor,
        }
    }
}

/// The lines of a freshly loaded remote root: the line to the directory
/// above, if there is one, then the first entries of the listing.
pub open spec fn remote_root_nodes(root: Seq<char>, es: Seq<DirEntryView>) -> Seq<TreeNodeView> {
    match remote_parent_spec(root) {
        Some(p) => seq![TreeNodeView { path: p, name: up_name(), is_dir: true, depth: 0, expanded: false, children_loaded: false }] + entry_nodes(es, 0),
        None => entry_nodes(es, 0),
    }
}

/// The lines for the first entries of a listing at a depth.
fn make_remote_nodes(entries: Vec<DirEntry>, depth: usize) -> (r: Vec<RemoteNode>)
    ensures
        remote_views(r@) == entry_nodes(dir_views(entries@), depth),
{
    let ghost es = dir_views(entries@);
    let mut src = entries;
    let mut out: Vec<RemoteNode> = Vec::new();
    let ghost mut i: int = 0;
    assert(es.skip(0) =~= es);
    while src.len() > 0 && out.len() < MAX_ENTRIES_PER_DIR
        invariant
            0 <= i <= es.len(),
            i <= MAX_ENTRIES_PER_DIR,
            out@.len() == i,
            dir_views(src@) == es.skip(i),
            remote_views(out@) == es.take(i).map_values(|e: DirEntryView| crate::ui::file_tree::entry_node(e, depth)),
        decreases src.len(),
    {
        assert(dir_views(src@).len() == src@.len());
        assert(dir_views(src@)[0] == src@[0]@);
        assert(es.skip(i)[0] == es[i]);
        let ghost old_src = src@;
        let e = src.remove(0);
        assert(dir_views(src@) =~= dir_views(old_src).drop_first());
        assert(es.skip(i).drop_first() =~= es.skip(i + 1));
        let ghost before = out@;
        out.push(RemoteNode { path: e.path, name: e.name, is_dir: e.is_dir, depth, expanded: false });
        assert(remote_views(out@) =~= remote_views(before).push(crate::ui::file_tree::entry_node(es[i], depth)));
        assert(es.take(i + 1) =~= es.take(i).push(es[i]));
        assert(es.take(i + 1).map_values(|e: DirEntryView| crate::ui::file_tree::entry_node(e, depth)) =~= es.take(i).map_values(|e: DirEntryView| crate::ui::file_tree::entry_node(e, depth)).push(crate::ui::file_tree::entry_node(es[i], depth)));
        proof {
            i = i + 1;
        }
    }
    proof {
        if es.len() > MAX_ENTRIES_PER_DIR {
            assert(entry_nodes(es, depth) =~= es.take(i).map_values(|e: DirEntryView| crate::ui::file_tree::entry_node(e, depth)));
        } else {
            assert(es.take(i) =~= es);
        }
    }
    out
}

/// What a key press does to the path prompt of the remote tree.
pub open spec fn remote_jump_spec(input: Seq<char>, key: Key, input2: Seq<char>, mode2: bool, a: RemoteTreeAction) -> bool {
    match key.code {
        KeyCode::Enter => a matches RemoteTreeAction::LoadRoot { path } && path@ == input && !mode2 && input2.len() == 0,
        KeyCode::Esc => a is Nothing && !mode2 && input2.len() == 0,
        KeyCode::Backspace => a is Nothing && mode2 && input2 == (if input.len() > 0 { input.drop_last() } else { input }),
        KeyCode::Char(c) => a is Nothing && mode2 && input2 == input.push(c),
        _ => a is Nothing && mode2 && input2 == input,
    }
}

/// What a key press does to a tree `t`, giving tree `t2` and action `a`.
pub open spec fn remote_key_spec(t: RemoteFileTree, key: Key, t2: RemoteFileTree, a: RemoteTreeAction) -> bool {
    let n = remote_views(t.nodes@);
    let n2 = remote_views(t2.nodes@);
    let c = t.cursor;
    let c2 = t2.cursor;
    &&& (t2.nodes@ == t.nodes@ || (key.code == KeyCode::Left && !t.jump_mode))
    &&& t2.current_root == t.current_root
    &&& t2.loading_error == t.loading_error
    &&& t2.conn == t.conn
    &&& if t.jump_mode {
        &&& remote_jump_spec(t.jump_input@, key, t2.jump_input@, t2.jump_mode, a)
        &&& c2 == c
        &&& t2.selected_path == t.selected_path
        &&& t2.show_hidden == t.show_hidden
    } else {
        &&& t2.jump_mode == (key.code == KeyCode::Char('/'))
        &&& key.code == KeyCode::Char('/') ==> t2.jump_input@.len() == 0
        &&& key.code != KeyCode::Char('/') ==> t2.jump_input == t.jump_input
        &&& t2.scroll_offset == t.scroll_offset
        &&& (key.code != KeyCode::Char(' ') ==> t2.selected_path == t.selected_path)
        &&& (key.code != KeyCode::Char('h') ==> t2.show_hidden == t.show_hidden)
        &&& match key.code {
            KeyCode::Up | KeyCode::Char('k') => a is Nothing && c2 == (if c > 0 { c - 1 } else { c as int }),
            KeyCode::Down | KeyCode::Char('j') => a is Nothing && c2 == (if c + 1 < n.len() { c + 1 } else { c as int }),
            KeyCode::Right | KeyCode::Enter => if c < n.len() && n[c as int].is_dir && n[c as int].expanded {
                a is Nothing && c2 == (if c + 1 < n.len() && n[c + 1].depth > n[c as int].depth { c + 1 } else { c as int })
            } else if c < n.len() && n[c as int].is_dir {
                remote_expand_spec(n, c as int, a) && c2 == c
            } else {
                a is Nothing && c2 == c
            },
            KeyCode::Left => if c < n.len() && n[c as int].is_dir && n[c as int].expanded {
                a is Nothing && n2 == collapsed(n, c as int) && c2 == c
            } else {
                n2 == n && remote_parent_step(n, c as int, c, c2, a)
            },
            KeyCode::Backspace => remote_parent_step(n, c as int, c, c2, a),
            KeyCode::Char(' ') => c2 == c && if c < n.len() && n[c as int].name != up_name() {
                &&& a matches RemoteTreeAction::Selected { path, is_dir } && path@ == n[c as int].path && is_dir == n[c as int].is_dir
                &&& opt_view(t2.selected_path) == Some(n[c as int].path)
            } else {
                a is Nothing && t2.selected_path == t.selected_path
            },
            KeyCode::Char('h') => c2 == c && t2.show_hidden == !t.show_hidden
                && (a matches RemoteTreeAction::LoadRoot { path } && path@ == t.current_root@),
            KeyCode::Char('g') => a is Nothing && c2 == 0,
            KeyCode::Char('G') => a is Nothing && c2 == (if n.len() > 0 { n.len() - 1 } else { c as int }),
            _ => a is Nothing && c2 == c,
        }
    }
}

impl RemoteFileTree {
    /// A remote tree on a connection, showing root `root` (already
    /// resolved) with its listing or the error that listing it gave.
    pub fn new(conn: Connection, root: String, listing: Result<Vec<DirEntry>, String>) -> (t: RemoteFileTree)
        ensures
            t.conn@ == conn@,
            t.current_root@ == root@,
            remote_views(t.nodes@) == remote_root_nodes(root@, match listing {
                Ok(es) => dir_views(es@),
                Err(_) => Seq::empty(),
            }),
            opt_view(t.loading_error) == (match listing {
                Ok(_) => None,
                Err(e) => Some(e@),
            }),
            t.cursor == 0,
            t.selected_path is None,
            !t.show_hidden,
            t.scroll_offset == 0,
            !t.jump_mode,
            t.jump_input@.len() == 0,
    {
        let mut t = RemoteFileTree {
            nodes: Vec::new(),
            cursor: 0,
            selected_path: None,
            show_hidden: false,
            scroll_offset: 0,
            current_root: owned("~"),
            loading_error: None,
            conn,
            jump_mode: false,
            jump_input: String::new(),
        };
        t.load_root(root, listing);
        t
    }

    /// Shows root `root` (already resolved) with its listing, or with no
    /// entries and the error that listing it gave.
    pub fn load_root(&mut self, root: String, listing: Result<Vec<DirEntry>, String>)
        ensures
            final(self).current_root@ == root@,
            remote_views(final(self).nodes@) == remote_root_nodes(root@, match listing {
                Ok(es) => dir_views(es@),
                Err(_) => Seq::empty(),
            }),
            opt_view(final(self).loading_error) == (match listing {
                Ok(_) => None,
                Err(e) => Some(e@),
            }),
            final(self).cursor == 0,
            final(self).scroll_offset == 0,
            final(self).conn == old(self).conn,
            final(self).selected_path == old(self).selected_path,
            final(self).show_hidden == old(self).show_hidden,
            final(self).jump_mode == old(self).jump_mode,
            final(self).jump_input == old(self).jump_input,
    {
        let mut nodes: Vec<RemoteNode> = Vec::new();
        match remote_parent(root.as_str()) {
            Some(p) => {
                nodes.push(RemoteNode { path: p, name: owned(".."), is_dir: true, depth: 0, expanded: false });
            },
            None => {},
        }
        let ghost first = remote_views(nodes@);
        let entries = match listing {
            Ok(es) => {
                self.loading_error = None;
                es
            },
            Err(e) => {
                self.loading_error = Some(e);
                Vec::new()
            },
        };
        let mut rest = make_remote_nodes(entries, 0);
        nodes.append(&mut rest);
        assert(remote_views(nodes@) =~= first + entry_nodes(dir_views(entries@), 0));
        self.nodes = nodes;
        self.current_root = root;
        self.cursor = 0;
        self.scroll_offset = 0;
    }

    /// Whether the path prompt is open.
    pub fn is_jump_mode(&self) -> (r: bool)
        ensures
            r == self.jump_mode,
    {
        self.jump_mode
    }

    /// Expanding the directory at line `index`: a `..` line asks for its
    /// directory as the new root; a collapsed directory asks for its
    /// listing; anything else does nothing. The lines stay as they are.
    pub fn expand(&self, index: usize) -> (a: RemoteTreeAction)
        ensures
            remote_expand_spec(remote_views(self.nodes@), index as int, a),
    {
        if index >= self.nodes.len() || !self.nodes[index].is_dir {
            return RemoteTreeAction::Nothing;
        }
        assert(remote_views(self.nodes@)[index as int] == remote_view(self.nodes@[index as int]));
        if text_eq(self.nodes[index].name.as_str(), "..") {
            return RemoteTreeAction::LoadRoot { path: self.nodes[index].path.clone() };
        }
        if self.nodes[index].expanded {
            return RemoteTreeAction::Nothing;
        }
        RemoteTreeAction::ListChildren { index, path: self.nodes[index].path.clone() }
    }

    /// Takes the listing asked for line `index`: on success the line is
    /// marked expanded and the entries are put below it one level deeper;
    /// on failure the error is kept to be shown.
    pub fn insert_children(&mut self, index: usize, listing: Result<Vec<DirEntry>, String>)
        ensures
            ({
                let n = remote_views(old(self).nodes@);
                match listing {
                    Ok(es) => if index < n.len() && n[index as int].depth < usize::MAX {
                        &&& remote_views(final(self).nodes@) == children_inserted(
                            n.update(index as int, TreeNodeView { expanded: true, ..n[index as int] }),
                            index as int,
                            dir_views(es@),
                        )
                        &&& final(self).loading_error == old(self).loading_error
                    } else {
                        final(self).nodes@ == old(self).nodes@ && final(self).loading_error == old(self).loading_error
                    },
                    Err(e) => final(self).nodes@ == old(self).nodes@ && opt_view(final(self).loading_error) == Some(e@),
                }
            }),
            final(self).cursor == old(self).cursor,
            final(self).current_root == old(self).current_root,
            final(self).conn == old(self).conn,
            final(self).selected_path == old(self).selected_path,
            final(self).show_hidden == old(self).show_hidden,
            final(self).scroll_offset == old(self).scroll_offset,
            final(self).jump_mode == old(self).jump_mode,
            final(self).jump_input == old(self).jump_input,
    {
        let entries = match listing {
            Ok(es) => es,
            Err(e) => {
                self.loading_error = Some(e);
                return;
            },
        };
        if index >= self.nodes.len() || self.nodes[index].depth == usize::MAX {
            return;
        }
        let ghost n = remote_views(self.nodes@);
        assert(n[index as int] == remote_view(self.nodes@[index as int]));
        let depth = self.nodes[index].depth + 1;
        let mut node = self.nodes.remove(index);
        node.expanded = true;
        self.nodes.insert(index, node);
        let ghost n1 = remote_views(self.nodes@);
        assert(n1 =~= n.update(index as int, TreeNodeView { expanded: true, ..n[index as int] }));
        let mut children = make_remote_nodes(entries, depth);
        let mut tail = self.nodes.split_off(index + 1);
        let ghost head = self.nodes@;
        let ghost kids = children@;
        let ghost rest = tail@;
        self.nodes.append(&mut children);
        self.nodes.append(&mut tail);
        assert(self.nodes@ =~= head + kids + rest);
        assert(remote_views(self.nodes@) =~= remote_views(head) + remote_views(kids) + remote_views(rest));
        assert(remote_views(head) =~= n1.take(index + 1));
        assert(remote_views(rest) =~= n1.skip(index + 1));
    }

    /// Collapses the expanded directory at line `index`, removing the lines
    /// below it that are deeper; anything else does nothing.
    pub fn collapse(&mut self, index: usize)
        ensures
            ({
                let n = remote_views(old(self).nodes@);
                if index < n.len() && n[index as int].is_dir && n[index as int].expanded {
                    remote_views(final(self).nodes@) == collapsed(n, index as int)
                } else {
                    final(self).nodes@ == old(self).nodes@
                }
            }),
            final(self).cursor == old(self).cursor,
            final(self).current_root == old(self).current_root,
            final(self).loading_error == old(self).loading_error,
            final(self).conn == old(self).conn,
            final(self).selected_path == old(self).selected_path,
            final(self).show_hidden == old(self).show_hidden,
            final(self).scroll_offset == old(self).scroll_offset,
            final(self).jump_mode == old(self).jump_mode,
            final(self).jump_input == old(self).jump_input,
    {
        if index >= self.nodes.len() || !self.nodes[index].is_dir || !self.nodes[index].expanded {
            return;
        }
        let ghost n = remote_views(self.nodes@);
        assert(n[index as int] == remote_view(self.nodes@[index as int]));
        let mut end = index + 1;
        while end < self.nodes.len() && self.nodes[end].depth > self.nodes[index].depth
            invariant
                index < end <= self.nodes.len(),
                n == remote_views(self.nodes@),
                crate::ui::file_tree::subtree_end(n, index as int, end as int) == crate::ui::file_tree::subtree_end(n, index as int, index + 1),
            decreases self.nodes.len() - end,
        {
            assert(n[end as int] == remote_view(self.nodes@[end as int]));
            end = end + 1;
        }
        proof {
            if end < self.nodes.len() {
                assert(n[end as int] == remote_view(self.nodes@[end as int]));
            }
        }
        let ghost all = self.nodes@;
        let mut tail = self.nodes.split_off(end);
        assert(tail@ =~= all.skip(end as int));
        self.nodes.truncate(index + 1);
        assert(self.nodes@ =~= all.take(index + 1));
        let mut node = self.nodes.remove(index);
        node.expanded = false;
        self.nodes.push(node);
        let ghost head = self.nodes@;
        assert(remote_views(head) =~= n.take(index as int).push(TreeNodeView { expanded: false, ..n[index as int] }));
        assert(remote_views(tail@) =~= n.skip(end as int));
        self.nodes.append(&mut tail);
        assert(remote_views(self.nodes@) =~= remote_views(head) + remote_views(all.skip(end as int)));
        assert(remote_views(self.nodes@) =~= collapsed(n, index as int));
    }

    /// Goes to the directory above line `index`: at the top level, the `..`
    /// line's directory is asked for as the new root; deeper, the cursor
    /// moves to the closest directory line one level up.
    pub fn go_to_parent(&mut self, index: usize) -> (a: RemoteTreeAction)
        ensures
            final(self).nodes@ == old(self).nodes@,
            remote_parent_step(remote_views(old(self).nodes@), index as int, old(self).cursor, final(self).cursor, a),
            final(self).current_root == old(self).current_root,
            final(self).loading_error == old(self).loading_error,
            final(self).conn == old(self).conn,
            final(self).selected_path == old(self).selected_path,
            final(self).show_hidden == old(self).show_hidden,
            final(self).scroll_offset == old(self).scroll_offset,
            final(self).jump_mode == old(self).jump_mode,
            final(self).jump_input == old(self).jump_input,
    {
        if index >= self.nodes.len() {
            return RemoteTreeAction::Nothing;
        }
        let ghost n = remote_views(self.nodes@);
        assert(n[index as int] == remote_view(self.nodes@[index as int]));
        assert(n[0] == remote_view(self.nodes@[0]));
        let depth = self.nodes[index].depth;
        if depth == 0 {
            if text_eq(self.nodes[0].name.as_str(), "..") {
                return RemoteTreeAction::LoadRoot { path: self.nodes[0].path.clone() };
            }
            return RemoteTreeAction::Nothing;
        }
        let mut k = index;
        while k > 0
            invariant
                k <= index < self.nodes.len(),
                n == remote_views(self.nodes@),
                depth == n[index as int].depth,
                depth > 0,
                parent_line(n, index as int, k as int) == parent_line(n, index as int, index as int),
                self.cursor == old(self).cursor,
                self.nodes@ == old(self).nodes@,
                self.current_root == old(self).current_root,
                self.loading_error == old(self).loading_error,
                self.conn == old(self).conn,
                self.selected_path == old(self).selected_path,
                self.show_hidden == old(self).show_hidden,
                self.scroll_offset == old(self).scroll_offset,
                self.jump_mode == old(self).jump_mode,
                self.jump_input == old(self).jump_input,
            decreases k,
        {
            assert(n[k - 1] == remote_view(self.nodes@[k - 1]));
            if self.nodes[k - 1].depth == depth - 1 && self.nodes[k - 1].is_dir {
                self.cursor = k - 1;
                return RemoteTreeAction::Nothing;
            }
            k = k - 1;
        }
        RemoteTreeAction::Nothing
    }

    /// A key press while the path prompt is open.
    fn handle_jump_key(&mut self, key: Key) -> (a: RemoteTreeAction)
        requires
            old(self).jump_mode,
        ensures
            remote_jump_spec(old(self).jump_input@, key, final(self).jump_input@, final(self).jump_mode, a),
            final(self).nodes@ == old(self).nodes@,
            final(self).cursor == old(self).cursor,
            final(self).current_root == old(self).current_root,
            final(self).loading_error == old(self).loading_error,
            final(self).conn == old(self).conn,
            final(self).selected_path == old(self).selected_path,
            final(self).show_hidden == old(self).show_hidden,
            final(self).scroll_offset == old(self).scroll_offset,
    {
        match key.code {
            KeyCode::Enter => {
                let path = owned(self.jump_input.as_str());
                self.jump_mode = false;
                self.jump_input = String::new();
                RemoteTreeAction::LoadRoot { path }
            },
            KeyCode::Esc => {
                self.jump_mode = false;
                self.jump_input = String::new();
                RemoteTreeAction::Nothing
            },
            KeyCode::Backspace => {
                self.jump_input = without_last(self.jump_input.as_str());
                RemoteTreeAction::Nothing
            },
            KeyCode::Char(c) => {
                push_char(&mut self.jump_input, c);
                RemoteTreeAction::Nothing
            },
            _ => RemoteTreeAction::Nothing,
        }
    }

    /// A key press: moving the cursor, expanding, collapsing, selecting,
    /// showing hidden entries, and the path prompt. What needs the remote
    /// host comes back as an action.
    pub fn handle_key(&mut self, key: Key) -> (a: RemoteTreeAction)
        requires
            cursor_ok(old(self).nodes@.len(), old(self).cursor),
        ensures
            cursor_ok(final(self).nodes@.len(), final(self).cursor),
            remote_key_spec(*old(self), key, *final(self), a),
    {
        if self.jump_mode {
            return self.handle_jump_key(key);
        }
        let ghost n = remote_views(self.nodes@);
        let len = self.nodes.len();
        let c = self.cursor;
        proof {
            if c < len {
                assert(n[c as int] == remote_view(self.nodes@[c as int]));
            }
            if c + 1 < len {
                assert(n[c + 1] == remote_view(self.nodes@[c + 1]));
            }
        }
        match key.code {
            KeyCode::Up | KeyCode::Char('k') => {
                if self.cursor > 0 {
                    self.cursor = self.cursor - 1;
                }
                RemoteTreeAction::Nothing
            },
            KeyCode::Down | KeyCode::Char('j') => {
                if self.cursor + 1 < self.nodes.len() {
                    self.cursor = self.cursor + 1;
                }
                RemoteTreeAction::Nothing
            },
            KeyCode::Right | KeyCode::Enter => {
                if c < len && self.nodes[c].is_dir {
                    if self.nodes[c].expanded {
                        if c + 1 < len && self.nodes[c + 1].depth > self.nodes[c].depth {
                            self.cursor = c + 1;
                        }
                        RemoteTreeAction::Nothing
                    } else {
                        self.expand(c)
                    }
                } else {
                    RemoteTreeAction::Nothing
                }
            },
            KeyCode::Left => {
                if c < len {
                    if self.nodes[c].is_dir && self.nodes[c].expanded {
                        self.collapse(c);
                        proof {
                            lemma_collapsed_len(n, c as int);
                            assert(remote_views(self.nodes@).len() == self.nodes@.len());
                        }
                        RemoteTreeAction::Nothing
                    } else {
                        let a = self.go_to_parent(c);
                        proof { lemma_parent_line_bound(n, c as int, c as int); }
                        a
                    }
                } else {
                    RemoteTreeAction::Nothing
                }
            },
            KeyCode::Backspace => {
                let a = self.go_to_parent(c);
                proof {
                    if c < len {
                        lemma_parent_line_bound(n, c as int, c as int);
                    }
                }
                a
            },
            KeyCode::Char(' ') => {
                if c < len {
                    if text_eq(self.nodes[c].name.as_str(), "..") {
                        return RemoteTreeAction::Nothing;
                    }
                    let path = self.nodes[c].path.clone();
                    let is_dir = self.nodes[c].is_dir;
                    self.selected_path = Some(path.clone());
                    RemoteTreeAction::Selected { path, is_dir }
                } else {
                    RemoteTreeAction::Nothing
                }
            },
            KeyCode::Char('h') => {
                self.show_hidden = !self.show_hidden;
                RemoteTreeAction::LoadRoot { path: owned(self.current_root.as_str()) }
            },
            KeyCode::Char('/') => {
                self.jump_mode = true;
                self.jump_input = String::new();
                RemoteTreeAction::Nothing
            },
            KeyCode::Char('g') => {
                self.cursor = 0;
                RemoteTreeAction::Nothing
            },
            KeyCode::Char('G') => {
                if len > 0 {
                    self.cursor = len - 1;
                }
                RemoteTreeAction::Nothing
            },
            _ => RemoteTreeAction::Nothing,
        }
    }
}

} // verus!
