//! The local file tree of the transfer screen: directories that expand in
//! place, a cursor, a selection and a path prompt. Reading directories is
//! left to the caller, which the tree asks through its actions.
use vstd::prelude::*;
use crate::text::{opt_view, owned, text_eq, without_last, push_char};
use crate::paths::{file_name_of, parent_path, path_file_name, path_parent};
use crate::ui::input::{Key, KeyCode};
use crate::ui::listing::{dir_views, DirEntry, DirEntryView};

verus! {

/// How many entries of one directory are shown.
pub const MAX_ENTRIES_PER_DIR: usize = 200;

/// A line of the tree.
pub struct TreeNode {
    pub path: String,
    pub name: String,
    pub is_dir: bool,
    pub depth: usize,
    pub expanded: bool,
    pub children_loaded: bool,
}

/// A line of the tree as mathematical values.
pub struct TreeNodeView {
    pub path: Seq<char>,
    pub name: Seq<char>,
    pub is_dir: bool,
    pub depth: usize,
    pub expanded: bool,
    pub children_loaded: bool,
}

impl View for TreeNode {
    type V = TreeNodeView;

    open spec fn view(&self) -> TreeNodeView {
        TreeNodeView {
            path: self.path@,
            name: self.name@,
            is_dir: self.is_dir,
            depth: self.depth,
            expanded: self.expanded,
            children_loaded: self.children_loaded,
        }
    }
}

/// The views of the lines of a tree.
pub open spec fn node_views(v: Seq<TreeNode>) -> Seq<TreeNodeView> {
    v.map_values(|n: TreeNode| n@)
}

/// The name of the line that leads to the parent directory.
pub open spec fn up_name() -> Seq<char> {
    ".."@
}

/// The line for a directory entry at a depth.
pub open spec fn entry_node(e: DirEntryView, depth: usize) -> TreeNodeView {
    TreeNodeView { path: e.path, name: e.name, is_dir: e.is_dir, depth, expanded: false, children_loaded: false }
}

/// The lines for the first entries of a listing, at a depth.
pub open spec fn entry_nodes(es: Seq<DirEntryView>, depth: usize) -> Seq<TreeNodeView> {
    let shown = if es.len() > MAX_ENTRIES_PER_DIR { es.take(MAX_ENTRIES_PER_DIR as int) } else { es };
    shown.map_values(|e: DirEntryView| entry_node(e, depth))
}

/// The lines of a freshly loaded root: the line to the parent, if there is
/// one, then the entries of the root.
pub open spec fn root_nodes(parent: Option<Seq<char>>, es: Seq<DirEntryView>) -> Seq<TreeNodeView> {
    match parent {
        Some(p) => seq![TreeNodeView { path: p, name: up_name(), is_dir: true, depth: 0, expanded: false, children_loaded: false }] + entry_nodes(es, 0),
        None => entry_nodes(es, 0),
    }
}

/// The end of the lines below line `i` that are deeper than it.
pub open spec fn subtree_end(nodes: Seq<TreeNodeView>, i: int, k: int) -> int
    decreases nodes.len() - k,
{
    if k >= nodes.len() || k < 0 {
        nodes.len() as int
    } else if nodes[k].depth > nodes[i].depth {
        subtree_end(nodes, i, k + 1)
    } else {
        k
    }
}

/// The lines with the lines below line `i` that are deeper than it removed
/// and line `i` marked collapsed.
pub open spec fn collapsed(nodes: Seq<TreeNodeView>, i: int) -> Seq<TreeNodeView> {
    let end = subtree_end(nodes, i, i + 1);
    nodes.take(i).push(TreeNodeView { expanded: false, ..nodes[i] }) + nodes.skip(end)
}

/// The closest line above `i` that is a directory one level up, if any.
pub open spec fn parent_line(nodes: Seq<TreeNodeView>, i: int, k: int) -> Option<int>
    decreases k,
{
    if k <= 0 {
        None
    } else if nodes[k - 1].depth + 1 == nodes[i].depth && nodes[k - 1].is_dir {
        Some(k - 1)
    } else {
        parent_line(nodes, i, k - 1)
    }
}

/// Whether the cursor is on a line, or at the top of an empty tree.
pub open spec fn cursor_ok(len: nat, cursor: usize) -> bool {
    len == 0 && cursor == 0 || cursor < len
}

/// What `expand` does to the lines `n` of a tree, giving lines `n2` and
/// action `a`.
pub open spec fn expand_spec(n: Seq<TreeNodeView>, index: int, n2: Seq<TreeNodeView>, a: FileTreeAction) -> bool {
    if index < 0 || index >= n.len() || !n[index].is_dir || (n[index].name != up_name() && n[index].expanded) {
        a is Nothing && n2 == n
    } else if n[index].name == up_name() {
        a matches FileTreeAction::LoadRoot { path } && path@ == n[index].path && n2 == n
    } else {
        &&& a matches FileTreeAction::ListChildren { index: i, path } && i == index && path@ == n[index].path
        &&& n2 == n.update(index, TreeNodeView { expanded: true, children_loaded: true, ..n[index] })
    }
}

/// Lines `n` with the lines for listing `es` put below line `index`, one
/// level deeper.
pub open spec fn children_inserted(n: Seq<TreeNodeView>, index: int, es: Seq<DirEntryView>) -> Seq<TreeNodeView> {
    n.take(index + 1) + entry_nodes(es, (n[index].depth + 1) as usize) + n.skip(index + 1)
}

/// What `collapse` does to the lines `n` of a tree.
pub open spec fn collapse_spec(n: Seq<TreeNodeView>, index: int) -> Seq<TreeNodeView> {
    if 0 <= index < n.len() && n[index].is_dir && n[index].expanded {
        collapsed(n, index)
    } else {
        n
    }
}

/// What `go_to_parent` does on lines `n`: the new cursor and the action,
/// from the old cursor.
pub open spec fn parent_spec(n: Seq<TreeNodeView>, index: int, cursor: usize, cursor2: usize, a: FileTreeAction) -> bool {
    if index < 0 || index >= n.len() {
        a is Nothing && cursor2 == cursor
    } else if n[index].depth == 0 {
        cursor2 == cursor && if n[0].name == up_name() {
            a matches FileTreeAction::LoadRoot { path } && path@ == n[0].path
        } else {
            a is Nothing
        }
    } else {
        a is Nothing && cursor2 == match parent_line(n, index, index) {
            Some(i) => i as usize,
            None => cursor,
        }
    }
}

/// The scroll offset that keeps line `cursor` in a window of `height`
/// lines that started at `offset`.
pub open spec fn scroll_to_show(cursor: usize, offset: usize, height: usize) -> int {
    if cursor < offset {
        cursor as int
    } else if cursor >= offset + height {
        cursor - height + 1
    } else {
        offset as int
    }
}

/// The first line named `name`, if any.
pub open spec fn first_named(n: Seq<TreeNodeView>, name: Seq<char>) -> Option<int> {
    if exists|i: int| 0 <= i < n.len() && n[i].name == name {
        Some(choose|i: int| 0 <= i < n.len() && n[i].name == name && forall|j: int| 0 <= j < i ==> n[j].name != name)
    } else {
        None
    }
}

/// What a key press does to the path prompt of a tree: the new prompt
/// text, whether the prompt stays open, and the action.
pub open spec fn jump_key_spec(input: Seq<char>, key: Key, input2: Seq<char>, mode2: bool, a: FileTreeAction) -> bool {
    match key.code {
        KeyCode::Enter => a matches FileTreeAction::JumpTo { path } && path@ == input && !mode2 && input2.len() == 0,
        KeyCode::Esc => a is Nothing && !mode2 && input2.len() == 0,
        KeyCode::Backspace => a is Nothing && mode2 && input2 == (if input.len() > 0 { input.drop_last() } else { input }),
        KeyCode::Char(c) => a is Nothing && mode2 && input2 == input.push(c),
        _ => a is Nothing && mode2 && input2 == input,
    }
}

/// What the tree asks of its caller, or reports.
pub enum FileTreeAction {
    /// Nothing.
    Nothing,
    /// A line was selected.
    Selected { path: String, is_dir: bool },
    /// The directory at line `index` was expanded: list `path` and hand the
    /// entries to `insert_children`.
    ListChildren { index: usize, path: String },
    /// Show directory `path` as the root: list it and hand the entries to `load_root`.
    LoadRoot { path: String },
    /// Load the current root again (hidden entries were toggled).
    Reload,
    /// The user asked to go to `path`.
    JumpTo { path: String },
}

/// The local file tree.
pub struct FileTree {
    pub nodes: Vec<TreeNode>,
    pub cursor: usize,
    pub selected_path: Option<String>,
    pub show_hidden: bool,
    pub scroll_offset: usize,
    pub jump_mode: bool,
    pub jump_input: String,
}

/// The lines for the entries of a listing at a depth.
fn make_nodes(entries: Vec<DirEntry>, depth: usize) -> (r: Vec<TreeNode>)
    ensures
        node_views(r@) == entry_nodes(dir_views(entries@), depth),
{
    let ghost es = dir_views(entries@);
    let ghost shown = if es.len() > MAX_ENTRIES_PER_DIR { es.take(MAX_ENTRIES_PER_DIR as int) } else { es };
    let mut src = entries;
    let mut out: Vec<TreeNode> = Vec::new();
    let ghost mut i: int = 0;
    assert(es.skip(0) =~= es);
    while src.len() > 0 && out.len() < MAX_ENTRIES_PER_DIR
        invariant
            0 <= i <= es.len(),
            i <= MAX_ENTRIES_PER_DIR,
            out@.len() == i,
            dir_views(src@) == es.skip(i),
            node_views(out@) == es.take(i).map_values(|e: DirEntryView| entry_node(e, depth)),
        decreases src.len(),
    {
        assert(dir_views(src@).len() == src@.len());
        assert(dir_views(src@)[0] == src@[0]@);
        assert(es.skip(i)[0] == es[i]);
        let ghost old_src = src@;
        let e = src.remove(0);
        assert(dir_views(src@) =~= dir_views(old_src).drop_first());
        assert(es.skip(i).drop_first() =~= es.skip(i + 1));
        let ghost before = out@;
        out.push(TreeNode { path: e.path, name: e.name, is_dir: e.is_dir, depth, expanded: false, children_loaded: false });
        assert(node_views(out@) =~= node_views(before).push(entry_node(es[i], depth)));
        assert(es.take(i + 1) =~= es.take(i).push(es[i]));
        assert(es.take(i + 1).map_values(|e: DirEntryView| entry_node(e, depth)) =~= es.take(i).map_values(|e: DirEntryView| entry_node(e, depth)).push(entry_node(es[i], depth)));
        proof {
            i = i + 1;
        }
    }
    proof {
        if es.len() > MAX_ENTRIES_PER_DIR {
            assert(shown =~= es.take(i));
        } else {
            assert(es.take(i) =~= es);
        }
    }
    out
}

/// The scroll offset that keeps line `cursor` in a window of `height`
/// lines that started at `offset`.
pub fn visible_scroll(cursor: usize, offset: usize, height: usize) -> (r: usize)
    requires
        cursor < usize::MAX,
    ensures
        r == scroll_to_show(cursor, offset, height),
{
    if cursor < offset {
        cursor
    } else if cursor - offset >= height {
        cursor + 1 - height
    } else {
        offset
    }
}

proof fn lemma_subtree_end_bounds(nodes: Seq<TreeNodeView>, i: int, k: int)
    requires
        0 <= k <= nodes.len(),
    ensures
        k <= subtree_end(nodes, i, k) <= nodes.len(),
    decreases nodes.len() - k,
{
    if k < nodes.len() && nodes[k].depth > nodes[i].depth {
        lemma_subtree_end_bounds(nodes, i, k + 1);
    }
}

/// Collapsing keeps the collapsed line, so the tree keeps at least that
/// many lines.
pub proof fn lemma_collapsed_len(nodes: Seq<TreeNodeView>, i: int)
    requires
        0 <= i < nodes.len(),
    ensures
        i < collapsed(nodes, i).len() <= nodes.len(),
{
    lemma_subtree_end_bounds(nodes, i, i + 1);
}

/// The parent line of a line lies above it.
pub proof fn lemma_parent_line_bound(nodes: Seq<TreeNodeView>, i: int, k: int)
    requires
        0 <= k <= i < nodes.len(),
    ensures
        parent_line(nodes, i, k) matches Some(j) ==> 0 <= j < k,
    decreases k,
{
    if k > 0 {
        lemma_parent_line_bound(nodes, i, k - 1);
    }
}

/// What a key press does to a tree `t`, giving tree `t2` and action `a`.
pub open spec fn tree_key_spec(t: FileTree, key: Key, t2: FileTree, a: FileTreeAction) -> bool {
    let n = node_views(t.nodes@);
    let n2 = node_views(t2.nodes@);
    let c = t.cursor;
    let c2 = t2.cursor;
    let unchanged_rest = t2.selected_path == t.selected_path
        && t2.show_hidden == t.show_hidden
        && t2.scroll_offset == t.scroll_offset;
    if t.jump_mode {
        &&& jump_key_spec(t.jump_input@, key, t2.jump_input@, t2.jump_mode, a)
        &&& n2 == n && c2 == c && unchanged_rest
    } else {
        &&& t2.jump_mode == (key.code == KeyCode::Char('/'))
        &&& key.code == KeyCode::Char('/') ==> t2.jump_input@.len() == 0
        &&& key.code != KeyCode::Char('/') ==> t2.jump_input == t.jump_input
        &&& t2.scroll_offset == t.scroll_offset
        &&& (key.code != KeyCode::Char(' ') ==> t2.selected_path == t.selected_path)
        &&& (key.code != KeyCode::Char('h') ==> t2.show_hidden == t.show_hidden)
        &&& match key.code {
            KeyCode::Up | KeyCode::Char('k') => a is Nothing && n2 == n && c2 == (if c > 0 { c - 1 } else { c as int }),
            KeyCode::Down | KeyCode::Char('j') => a is Nothing && n2 == n && c2 == (if c + 1 < n.len() { c + 1 } else { c as int }),
            KeyCode::Right | KeyCode::Enter => if c < n.len() && n[c as int].is_dir && n[c as int].expanded {
                a is Nothing && n2 == n && c2 == (if c + 1 < n.len() && n[c + 1].depth > n[c as int].depth { c + 1 } else { c as int })
            } else if c < n.len() && n[c as int].is_dir {
                expand_spec(n, c as int, n2, a) && c2 == c
            } else {
                a is Nothing && n2 == n && c2 == c
            },
            KeyCode::Left => if c < n.len() && n[c as int].is_dir && n[c as int].expanded {
                a is Nothing && n2 == collapsed(n, c as int) && c2 == c
            } else {
                n2 == n && parent_spec(n, c as int, c, c2, a)
            },
            KeyCode::Backspace => n2 == n && parent_spec(n, c as int, c, c2, a),
            KeyCode::Char(' ') => n2 == n && c2 == c && if c < n.len() && n[c as int].name != up_name() {
                &&& a matches FileTreeAction::Selected { path, is_dir } && path@ == n[c as int].path && is_dir == n[c as int].is_dir
                &&& opt_view(t2.selected_path) == Some(n[c as int].path)
            } else {
                a is Nothing && t2.selected_path == t.selected_path
            },
            KeyCode::Char('h') => a is Reload && n2 == n && c2 == c && t2.show_hidden == !t.show_hidden,
            KeyCode::Char('g') => a is Nothing && n2 == n && c2 == 0,
            KeyCode::Char('G') => a is Nothing && n2 == n && c2 == (if n.len() > 0 { n.len() - 1 } else { c as int }),
            _ => a is Nothing && n2 == n && c2 == c,
        }
    }
}

impl FileTree {
    /// A tree showing a root directory: `parent` is the directory above the
    /// root, if any, and `entries` its shown listing (none when it could not
    /// be read).
    pub fn new(parent: Option<String>, entries: Vec<DirEntry>) -> (t: FileTree)
        ensures
            node_views(t.nodes@) == root_nodes(crate::text::opt_view(parent), dir_views(entries@)),
            t.cursor == 0,
            t.selected_path is None,
            !t.show_hidden,
            t.scroll_offset == 0,
            !t.jump_mode,
            t.jump_input@.len() == 0,
    {
        let mut t = FileTree {
            nodes: Vec::new(),
            cursor: 0,
            selected_path: None,
            show_hidden: false,
            scroll_offset: 0,
            jump_mode: false,
            jump_input: String::new(),
        };
        t.load_root(parent, entries);
        t
    }

    /// Shows a root directory: `parent` is the directory above it, if any,
    /// and `entries` its shown listing. The cursor and scrolling go to the top.
    pub fn load_root(&mut self, parent: Option<String>, entries: Vec<DirEntry>)
        ensures
            node_views(final(self).nodes@) == root_nodes(crate::text::opt_view(parent), dir_views(entries@)),
            final(self).cursor == 0,
            final(self).scroll_offset == 0,
            final(self).selected_path == old(self).selected_path,
            final(self).show_hidden == old(self).show_hidden,
            final(self).jump_mode == old(self).jump_mode,
            final(self).jump_input == old(self).jump_input,
    {
        let mut nodes: Vec<TreeNode> = Vec::new();
        match parent {
            Some(p) => {
                nodes.push(TreeNode { path: p, name: owned(".."), is_dir: true, depth: 0, expanded: false, children_loaded: false });
            },
            None => {},
        }
        let ghost first = node_views(nodes@);
        let mut rest = make_nodes(entries, 0);
        nodes.append(&mut rest);
        assert(node_views(nodes@) =~= first + entry_nodes(dir_views(entries@), 0));
        self.nodes = nodes;
        self.cursor = 0;
        self.scroll_offset = 0;
    }

    /// Replaces line `index` by a copy with the given flags.
    fn set_flags(&mut self, index: usize, expanded: bool, children_loaded: bool)
        requires
            index < old(self).nodes.len(),
        ensures
            node_views(final(self).nodes@) == node_views(old(self).nodes@).update(
                index as int,
                TreeNodeView { expanded, children_loaded, ..node_views(old(self).nodes@)[index as int] },
            ),
            final(self).cursor == old(self).cursor,
            final(self).selected_path == old(self).selected_path,
            final(self).show_hidden == old(self).show_hidden,
            final(self).scroll_offset == old(self).scroll_offset,
            final(self).jump_mode == old(self).jump_mode,
            final(self).jump_input == old(self).jump_input,
    {
        let ghost before = node_views(self.nodes@);
        let mut n = self.nodes.remove(index);
        n.expanded = expanded;
        n.children_loaded = children_loaded;
        self.nodes.insert(index, n);
        assert(node_views(self.nodes@) =~= before.update(
            index as int,
            TreeNodeView { expanded, children_loaded, ..before[index as int] },
        ));
    }

    /// Expands the directory at line `index`: a `..` line asks for its
    /// directory as the new root; a collapsed directory is marked expanded
    /// and its listing is asked for; anything else does nothing.
    pub fn expand(&mut self, index: usize) -> (a: FileTreeAction)
        ensures
            expand_spec(node_views(old(self).nodes@), index as int, node_views(final(self).nodes@), a),
            final(self).cursor == old(self).cursor,
            final(self).selected_path == old(self).selected_path,
            final(self).show_hidden == old(self).show_hidden,
            final(self).scroll_offset == old(self).scroll_offset,
            final(self).jump_mode == old(self).jump_mode,
            final(self).jump_input == old(self).jump_input,
    {
        if index >= self.nodes.len() || !self.nodes[index].is_dir {
            return FileTreeAction::Nothing;
        }
        assert(node_views(self.nodes@)[index as int] == self.nodes@[index as int]@);
        if text_eq(self.nodes[index].name.as_str(), "..") {
            return FileTreeAction::LoadRoot { path: self.nodes[index].path.clone() };
        }
        if self.nodes[index].expanded {
            return FileTreeAction::Nothing;
        }
        let path = self.nodes[index].path.clone();
        self.set_flags(index, true, true);
        FileTreeAction::ListChildren { index, path }
    }

    /// Puts the listing of the directory at line `index` below it, one
    /// level deeper (nothing when there is no such line or no deeper level).
    pub fn insert_children(&mut self, index: usize, entries: Vec<DirEntry>)
        ensures
            ({
                let n = node_views(old(self).nodes@);
                if index < n.len() && n[index as int].depth < usize::MAX {
                    node_views(final(self).nodes@) == children_inserted(n, index as int, dir_views(entries@))
                } else {
                    final(self).nodes@ == old(self).nodes@
                }
            }),
            final(self).cursor == old(self).cursor,
            final(self).selected_path == old(self).selected_path,
            final(self).show_hidden == old(self).show_hidden,
            final(self).scroll_offset == old(self).scroll_offset,
            final(self).jump_mode == old(self).jump_mode,
            final(self).jump_input == old(self).jump_input,
    {
        if index >= self.nodes.len() || self.nodes[index].depth == usize::MAX {
            return;
        }
        let ghost n = node_views(self.nodes@);
        assert(n[index as int] == self.nodes@[index as int]@);
        let depth = self.nodes[index].depth + 1;
        let mut children = make_nodes(entries, depth);
        let mut tail = self.nodes.split_off(index + 1);
        let ghost head = self.nodes@;
        let ghost kids = children@;
        let ghost rest = tail@;
        self.nodes.append(&mut children);
        self.nodes.append(&mut tail);
        assert(self.nodes@ =~= head + kids + rest);
        assert(node_views(self.nodes@) =~= node_views(head) + node_views(kids) + node_views(rest));
        assert(node_views(head) =~= n.take(index + 1));
        assert(node_views(rest) =~= n.skip(index + 1));
    }

    /// The end of the lines below line `index` that are deeper than it.
    fn subtree_end_exec(&self, index: usize) -> (r: usize)
        requires
            index < self.nodes.len(),
        ensures
            r == subtree_end(node_views(self.nodes@), index as int, index + 1),
            index < r <= self.nodes.len(),
    {
        let ghost n = node_views(self.nodes@);
        let mut k = index + 1;
        while k < self.nodes.len() && self.nodes[k].depth > self.nodes[index].depth
            invariant
                index < k <= self.nodes.len(),
                n == node_views(self.nodes@),
                subtree_end(n, index as int, k as int) == subtree_end(n, index as int, index + 1),
            decreases self.nodes.len() - k,
        {
            assert(n[k as int] == self.nodes@[k as int]@);
            assert(n[index as int] == self.nodes@[index as int]@);
            k = k + 1;
        }
        proof {
            if k < self.nodes.len() {
                assert(n[k as int] == self.nodes@[k as int]@);
                assert(n[index as int] == self.nodes@[index as int]@);
            }
        }
        k
    }

    /// Collapses the expanded directory at line `index`, removing the lines
    /// below it that are deeper; anything else does nothing.
    pub fn collapse(&mut self, index: usize)
        ensures
            node_views(final(self).nodes@) == collapse_spec(node_views(old(self).nodes@), index as int),
            final(self).cursor == old(self).cursor,
            final(self).selected_path == old(self).selected_path,
            final(self).show_hidden == old(self).show_hidden,
            final(self).scroll_offset == old(self).scroll_offset,
            final(self).jump_mode == old(self).jump_mode,
            final(self).jump_input == old(self).jump_input,
    {
        if index >= self.nodes.len() || !self.nodes[index].is_dir || !self.nodes[index].expanded {
            return;
        }
        let ghost n = node_views(self.nodes@);
        assert(n[index as int] == self.nodes@[index as int]@);
        let end = self.subtree_end_exec(index);
        let ghost all = self.nodes@;
        let mut tail = self.nodes.split_off(end);
        assert(tail@ =~= all.skip(end as int));
        assert(self.nodes@ =~= all.take(end as int));
        self.nodes.truncate(index + 1);
        assert(self.nodes@ =~= all.take(index + 1));
        let loaded = self.nodes[index].children_loaded;
        self.set_flags(index, false, loaded);
        let ghost head = self.nodes@;
        assert(node_views(head) =~= n.take(index as int).push(TreeNodeView { expanded: false, ..n[index as int] }));
        assert(node_views(tail@) =~= n.skip(end as int));
        self.nodes.append(&mut tail);
        assert(node_views(self.nodes@) =~= node_views(head) + node_views(all.skip(end as int)));
        assert(node_views(self.nodes@) =~= collapsed(n, index as int));
    }

    /// Goes to the directory above line `index`: at the top level, the `..`
    /// line's directory is asked for as the new root; deeper, the cursor
    /// moves to the closest directory line one level up.
    pub fn go_to_parent(&mut self, index: usize) -> (a: FileTreeAction)
        ensures
            final(self).nodes@ == old(self).nodes@,
            parent_spec(node_views(old(self).nodes@), index as int, old(self).cursor, final(self).cursor, a),
            final(self).selected_path == old(self).selected_path,
            final(self).show_hidden == old(self).show_hidden,
            final(self).scroll_offset == old(self).scroll_offset,
            final(self).jump_mode == old(self).jump_mode,
            final(self).jump_input == old(self).jump_input,
    {
        if index >= self.nodes.len() {
            return FileTreeAction::Nothing;
        }
        let ghost n = node_views(self.nodes@);
        assert(n[index as int] == self.nodes@[index as int]@);
        assert(n[0] == self.nodes@[0]@);
        let depth = self.nodes[index].depth;
        if depth == 0 {
            if text_eq(self.nodes[0].name.as_str(), "..") {
                return FileTreeAction::LoadRoot { path: self.nodes[0].path.clone() };
            }
            return FileTreeAction::Nothing;
        }
        let mut k = index;
        while k > 0
            invariant
                k <= index < self.nodes.len(),
                n == node_views(self.nodes@),
                depth == n[index as int].depth,
                depth > 0,
                parent_line(n, index as int, k as int) == parent_line(n, index as int, index as int),
                self.cursor == old(self).cursor,
                self.nodes@ == old(self).nodes@,
                self.selected_path == old(self).selected_path,
                self.show_hidden == old(self).show_hidden,
                self.scroll_offset == old(self).scroll_offset,
                self.jump_mode == old(self).jump_mode,
                self.jump_input == old(self).jump_input,
            decreases k,
        {
            assert(n[k - 1] == self.nodes@[k - 1]@);
            if self.nodes[k - 1].depth == depth - 1 && self.nodes[k - 1].is_dir {
                self.cursor = k - 1;
                return FileTreeAction::Nothing;
            }
            k = k - 1;
        }
        FileTreeAction::Nothing
    }

    /// Whether the path prompt is open.
    pub fn is_jump_mode(&self) -> (r: bool)
        ensures
            r == self.jump_mode,
    {
        self.jump_mode
    }

    /// Scrolls so that the cursor line is inside a window of `height`
    /// lines (nothing for an empty window).
    pub fn ensure_cursor_visible(&mut self, height: usize)
        requires
            old(self).cursor < usize::MAX,
        ensures
            final(self).scroll_offset == (if height == 0 { old(self).scroll_offset as int } else {
                scroll_to_show(old(self).cursor, old(self).scroll_offset, height)
            }),
            final(self).nodes@ == old(self).nodes@,
            final(self).cursor == old(self).cursor,
            final(self).selected_path == old(self).selected_path,
            final(self).show_hidden == old(self).show_hidden,
            final(self).jump_mode == old(self).jump_mode,
            final(self).jump_input == old(self).jump_input,
    {
        if height == 0 {
            return;
        }
        self.scroll_offset = visible_scroll(self.cursor, self.scroll_offset, height);
    }

    /// The directory the tree shows: the `..` line's directory when the
    /// first line is one, else the directory above the first line.
    pub fn current_root(&self) -> (r: Option<String>)
        ensures
            opt_view(r) == (if self.nodes@.len() == 0 {
                None
            } else if self.nodes@[0].name@ == up_name() {
                Some(self.nodes@[0].path@)
            } else {
                path_parent(self.nodes@[0].path@)
            }),
    {
        if self.nodes.len() == 0 {
            return None;
        }
        if text_eq(self.nodes[0].name.as_str(), "..") {
            return Some(self.nodes[0].path.clone());
        }
        parent_path(self.nodes[0].path.as_str())
    }

    /// Puts the cursor on the first line named `name`, if there is one.
    pub fn select_name(&mut self, name: &str)
        ensures
            final(self).cursor == (match first_named(node_views(old(self).nodes@), name@) {
                Some(i) => i as usize,
                None => old(self).cursor,
            }),
            final(self).nodes@ == old(self).nodes@,
            final(self).selected_path == old(self).selected_path,
            final(self).show_hidden == old(self).show_hidden,
            final(self).scroll_offset == old(self).scroll_offset,
            final(self).jump_mode == old(self).jump_mode,
            final(self).jump_input == old(self).jump_input,
    {
        let ghost n = node_views(self.nodes@);
        let mut i: usize = 0;
        while i < self.nodes.len()
            invariant
                i <= self.nodes.len(),
                n == node_views(self.nodes@),
                forall|j: int| 0 <= j < i ==> n[j].name != name@,
                self.cursor == old(self).cursor,
                self.nodes@ == old(self).nodes@,
                self.selected_path == old(self).selected_path,
                self.show_hidden == old(self).show_hidden,
                self.scroll_offset == old(self).scroll_offset,
                self.jump_mode == old(self).jump_mode,
                self.jump_input == old(self).jump_input,
            decreases self.nodes.len() - i,
        {
            assert(n[i as int] == self.nodes@[i as int]@);
            if text_eq(self.nodes[i].name.as_str(), name) {
                assert(first_named(n, name@) == Some(i as int)) by {
                    assert(0 <= i < n.len() && n[i as int].name == name@);
                    let k = choose|k: int| 0 <= k < n.len() && n[k].name == name@ && forall|j: int| 0 <= j < k ==> n[j].name != name@;
                    assert(k == i) by {
                        if k < i {
                            assert(n[k].name != name@);
                        } else if k > i {
                            assert(n[i as int].name != name@);
                        }
                    }
                }
                self.cursor = i;
                return;
            }
            i = i + 1;
        }
        assert(first_named(n, name@) is None);
    }

    /// Goes to the path typed at the prompt, given whether it is a
    /// directory and the shown listing of the directory to show: a
    /// directory becomes the root; otherwise its parent does (the caller
    /// calls this only when that parent is a directory) and the cursor goes
    /// to the line of the named file, if it is shown.
    pub fn jump_to_path(&mut self, path: &str, is_dir: bool, entries: Vec<DirEntry>)
        ensures
            ({
                let root = if is_dir { Some(path@) } else { path_parent(path@) };
                match root {
                    None => final(self).nodes@ == old(self).nodes@ && final(self).cursor == old(self).cursor
                        && final(self).scroll_offset == old(self).scroll_offset,
                    Some(r) => {
                        &&& node_views(final(self).nodes@) == root_nodes(path_parent(r), dir_views(entries@))
                        &&& final(self).scroll_offset == 0
                        &&& final(self).cursor == (if is_dir {
                            0
                        } else {
                            match path_file_name(path@) {
                                Some(name) => match first_named(node_views(final(self).nodes@), name) {
                                    Some(i) => i as usize,
                                    None => 0,
                                },
                                None => 0,
                            }
                        })
                    },
                }
            }),
            final(self).selected_path == old(self).selected_path,
            final(self).show_hidden == old(self).show_hidden,
            final(self).jump_mode == old(self).jump_mode,
            final(self).jump_input == old(self).jump_input,
    {
        if is_dir {
            self.load_root(parent_path(path), entries);
            return;
        }
        match parent_path(path) {
            Some(parent) => {
                self.load_root(parent_path(parent.as_str()), entries);
                match file_name_of(path) {
                    Some(name) => self.select_name(name.as_str()),
                    None => {},
                }
            },
            None => {},
        }
    }

    /// A key press while the path prompt is open.
    fn handle_jump_key(&mut self, key: Key) -> (a: FileTreeAction)
        requires
            old(self).jump_mode,
        ensures
            jump_key_spec(old(self).jump_input@, key, final(self).jump_input@, final(self).jump_mode, a),
            final(self).nodes@ == old(self).nodes@,
            final(self).cursor == old(self).cursor,
            final(self).selected_path == old(self).selected_path,
            final(self).show_hidden == old(self).show_hidden,
            final(self).scroll_offset == old(self).scroll_offset,
    {
        match key.code {
            KeyCode::Enter => {
                let path = owned(self.jump_input.as_str());
                self.jump_mode = false;
                self.jump_input = String::new();
                FileTreeAction::JumpTo { path }
            },
            KeyCode::Esc => {
                self.jump_mode = false;
                self.jump_input = String::new();
                FileTreeAction::Nothing
            },
            KeyCode::Backspace => {
                self.jump_input = without_last(self.jump_input.as_str());
                FileTreeAction::Nothing
            },
            KeyCode::Char(c) => {
                push_char(&mut self.jump_input, c);
                FileTreeAction::Nothing
            },
            _ => FileTreeAction::Nothing,
        }
    }

    /// A key press: moving the cursor, expanding, collapsing, selecting,
    /// showing hidden entries, and the path prompt. What needs the file
    /// system comes back as an action.
    pub fn handle_key(&mut self, key: Key) -> (a: FileTreeAction)
        requires
            cursor_ok(old(self).nodes@.len(), old(self).cursor),
        ensures
            cursor_ok(final(self).nodes@.len(), final(self).cursor),
            tree_key_spec(*old(self), key, *final(self), a),
    {
        if self.jump_mode {
            return self.handle_jump_key(key);
        }
        let ghost n = node_views(self.nodes@);
        let len = self.nodes.len();
        let c = self.cursor;
        proof {
            if c < len {
                assert(n[c as int] == self.nodes@[c as int]@);
            }
            if c + 1 < len {
                assert(n[c + 1] == self.nodes@[c + 1]@);
            }
        }
        match key.code {
            KeyCode::Up | KeyCode::Char('k') => {
                if self.cursor > 0 {
                    self.cursor = self.cursor - 1;
                }
                FileTreeAction::Nothing
            },
            KeyCode::Down | KeyCode::Char('j') => {
                if self.cursor + 1 < self.nodes.len() {
                    self.cursor = self.cursor + 1;
                }
                FileTreeAction::Nothing
            },
            KeyCode::Right | KeyCode::Enter => {
                if c < len && self.nodes[c].is_dir {
                    if self.nodes[c].expanded {
                        if c + 1 < len && self.nodes[c + 1].depth > self.nodes[c].depth {
                            self.cursor = c + 1;
                        }
                        FileTreeAction::Nothing
                    } else {
                        let a = self.expand(c);
                        proof {
                            assert(node_views(self.nodes@).len() == self.nodes@.len());
                        }
                        a
                    }
                } else {
                    FileTreeAction::Nothing
                }
            },
            KeyCode::Left => {
                if c < len {
                    if self.nodes[c].is_dir && self.nodes[c].expanded {
                        self.collapse(c);
                        proof {
                            lemma_collapsed_len(n, c as int);
                            assert(node_views(self.nodes@).len() == self.nodes@.len());
                        }
                        FileTreeAction::Nothing
                    } else {
                        let a = self.go_to_parent(c);
                        proof { lemma_parent_line_bound(n, c as int, c as int); }
                        a
                    }
                } else {
                    FileTreeAction::Nothing
                }
            },
            KeyCode::Backspace => {
                let a = self.go_to_parent(c);
                proof {
                    if c < len {
                        lemma_parent_line_bound(n, c as int, c as int);
                    }
                }
                a
            },
            KeyCode::Char(' ') => {
                if c < len {
                    if text_eq(self.nodes[c].name.as_str(), "..") {
                        return FileTreeAction::Nothing;
                    }
                    let path = self.nodes[c].path.clone();
                    let is_dir = self.nodes[c].is_dir;
                    self.selected_path = Some(path.clone());
                    FileTreeAction::Selected { path, is_dir }
                } else {
                    FileTreeAction::Nothing
                }
            },
            KeyCode::Char('h') => {
                self.show_hidden = !self.show_hidden;
                FileTreeAction::Reload
            },
            KeyCode::Char('/') => {
                self.jump_mode = true;
                self.jump_input = String::new();
                FileTreeAction::Nothing
            },
            KeyCode::Char('g') => {
                self.cursor = 0;
                FileTreeAction::Nothing
            },
            KeyCode::Char('G') => {
                if len > 0 {
                    self.cursor = len - 1;
                }
                FileTreeAction::Nothing
            },
            _ => FileTreeAction::Nothing,
        }
    }
}

proof fn lemma_subtree_end_skip(nodes: Seq<TreeNodeView>, i: int, k: int, m: int)
    requires
        0 <= k <= m <= nodes.len(),
        forall|j: int| k <= j < m ==> #[trigger] nodes[j].depth > nodes[i].depth,
    ensures
        subtree_end(nodes, i, k) == subtree_end(nodes, i, m),
    decreases m - k,
{
    if k < m {
        lemma_subtree_end_skip(nodes, i, k + 1, m);
    }
}

/// Expanding a collapsed directory line, putting its listing below it and
/// collapsing it again gives back the lines it started from; only the
/// line's record of a loaded listing may have changed (`loaded`: the local
/// tree records it, the remote tree does not).
pub proof fn lemma_expand_then_collapse(n: Seq<TreeNodeView>, index: int, es: Seq<DirEntryView>, loaded: bool)
    requires
        0 <= index < n.len(),
        n[index].is_dir,
        !n[index].expanded,
        n[index].depth < usize::MAX,
        index + 1 < n.len() ==> n[index + 1].depth <= n[index].depth,
    ensures
        ({
            let n1 = n.update(index, TreeNodeView { expanded: true, children_loaded: loaded, ..n[index] });
            collapse_spec(children_inserted(n1, index, es), index)
                == n.update(index, TreeNodeView { children_loaded: loaded, ..n[index] })
        }),
{
    let n1 = n.update(index, TreeNodeView { expanded: true, children_loaded: loaded, ..n[index] });
    let d = (n[index].depth + 1) as usize;
    let kids = entry_nodes(es, d);
    let n2 = children_inserted(n1, index, es);
    let m = index + 1 + kids.len();
    assert(n2.len() == n.len() + kids.len());
    assert forall|j: int| index + 1 <= j < m implies #[trigger] n2[j].depth > n2[index].depth by {
        assert(n2[j] == kids[j - index - 1]);
    }
    lemma_subtree_end_skip(n2, index, index + 1, m);
    if m < n2.len() {
        assert(n2[m] == n[index + 1]);
    }
    assert(subtree_end(n2, index, m) == m);
    assert(n2.skip(m) =~= n.skip(index + 1));
    assert(n2.take(index) =~= n.take(index));
    assert(collapsed(n2, index) =~= n.update(index, TreeNodeView { children_loaded: loaded, ..n[index] }));
}

} // verus!
