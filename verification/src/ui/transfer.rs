//! The transfer screen: a local and a remote tree side by side, the chosen
//! source and destination, the direction and whether to copy recursively.
use vstd::prelude::*;
use crate::ssh::transfer::TransferDirection;
use crate::text::{opt_view, owned};
use crate::ui::file_tree::{cursor_ok, tree_key_spec, FileTree, FileTreeAction};
use crate::ui::input::{Key, KeyCode};
use crate::ui::remote_file_tree::{remote_key_spec, RemoteFileTree, RemoteTreeAction};

verus! {

/// The tree that gets the keys.
#[derive(Debug, Clone, Copy, PartialEq, Eq, Structural)]
pub enum Pane {
    Local,
    Remote,
}

/// The transfer screen.
pub struct TransferScreen {
    pub local_tree: FileTree,
    pub remote_tree: RemoteFileTree,
    pub direction: TransferDirection,
    pub local_path: Option<String>,
    pub remote_path: Option<String>,
    pub recursive: bool,
    pub focused_pane: Pane,
    pub connection_name: String,
}

/// What the transfer screen asks of its caller.
pub enum TransferAction {
    /// Nothing.
    Nothing,
    /// Leave the screen.
    Cancel,
    /// Copy between the chosen paths.
    Execute { local_path: String, remote_path: String, direction: TransferDirection, recursive: bool },
    /// Carry out what the local tree asks (it never asks for `Nothing` or
    /// reports `Selected` here).
    Local(FileTreeAction),
    /// Carry out what the remote tree asks (never `Nothing` or `Selected`).
    Remote(RemoteTreeAction),
}

/// Whether both trees have their cursor on a line or at the top of an
/// empty tree.
pub open spec fn screen_ok(s: TransferScreen) -> bool {
    cursor_ok(s.local_tree.nodes@.len(), s.local_tree.cursor) && cursor_ok(s.remote_tree.nodes@.len(), s.remote_tree.cursor)
}

/// The screen's answer to what the local tree did: a selection is taken
/// (the path becomes the local side, and a directory makes the copy
/// recursive); any other request is handed up.
pub open spec fn after_local(s: TransferScreen, la: FileTreeAction, s2: TransferScreen, a: TransferAction) -> bool {
    match la {
        FileTreeAction::Nothing => a is Nothing && s2.local_path == s.local_path && s2.recursive == s.recursive,
        FileTreeAction::Selected { path, is_dir } => a is Nothing && opt_view(s2.local_path) == Some(path@) && s2.recursive == is_dir,
        _ => a == TransferAction::Local(la) && s2.local_path == s.local_path && s2.recursive == s.recursive,
    }
}

/// The screen's answer to what the remote tree did: a selection is taken
/// (the path becomes the remote side, and a directory makes the copy
/// recursive); any other request is handed up.
pub open spec fn after_remote(s: TransferScreen, ra: RemoteTreeAction, s2: TransferScreen, a: TransferAction) -> bool {
    match ra {
        RemoteTreeAction::Nothing => a is Nothing && s2.remote_path == s.remote_path && s2.recursive == s.recursive,
        RemoteTreeAction::Selected { path, is_dir } => a is Nothing && opt_view(s2.remote_path) == Some(path@)
            && s2.recursive == (is_dir || s.recursive),
        _ => a == TransferAction::Remote(ra) && s2.remote_path == s.remote_path && s2.recursive == s.recursive,
    }
}

/// The copy asked for when both sides are chosen.
pub open spec fn execute_spec(s: TransferScreen, a: TransferAction) -> bool {
    match (s.local_path, s.remote_path) {
        (Some(l), Some(r)) => a matches TransferAction::Execute { local_path, remote_path, direction, recursive }
            && local_path@ == l@ && remote_path@ == r@ && direction == s.direction && recursive == s.recursive,
        _ => a is Nothing,
    }
}

/// What a key press does to the transfer screen `s`, giving `s2` and `a`.
pub open spec fn transfer_key_spec(s: TransferScreen, key: Key, s2: TransferScreen, a: TransferAction) -> bool {
    let lt = s.local_tree;
    let rt = s.remote_tree;
    let global = key.code == KeyCode::Esc || key.code == KeyCode::Tab || key.code == KeyCode::Char('d')
        || key.code == KeyCode::Char('r');
    if lt.jump_mode {
        &&& exists|la: FileTreeAction| tree_key_spec(lt, key, s2.local_tree, la) && after_local(s, la, s2, a)
        &&& s2.remote_tree == rt && s2.remote_path == s.remote_path
        &&& s2.direction == s.direction && s2.focused_pane == s.focused_pane
    } else if rt.jump_mode {
        &&& exists|ra: RemoteTreeAction| remote_key_spec(rt, key, s2.remote_tree, ra) && after_remote(s, ra, s2, a)
        &&& s2.local_tree == lt && s2.local_path == s.local_path
        &&& s2.direction == s.direction && s2.focused_pane == s.focused_pane
    } else if global {
        &&& s2.local_tree == lt && s2.remote_tree == rt
        &&& s2.local_path == s.local_path && s2.remote_path == s.remote_path
        &&& if key.code == KeyCode::Esc {
            a is Cancel && s2.focused_pane == s.focused_pane && s2.direction == s.direction && s2.recursive == s.recursive
        } else if key.code == KeyCode::Tab {
            &&& a is Nothing && s2.direction == s.direction && s2.recursive == s.recursive
            &&& s2.focused_pane == (if s.focused_pane == Pane::Local { Pane::Remote } else { Pane::Local })
        } else if key.code == KeyCode::Char('d') {
            &&& a is Nothing && s2.focused_pane == s.focused_pane && s2.recursive == s.recursive
            &&& s2.direction == (if s.direction == TransferDirection::Upload {
                TransferDirection::Download
            } else {
                TransferDirection::Upload
            })
        } else {
            a is Nothing && s2.focused_pane == s.focused_pane && s2.direction == s.direction && s2.recursive == !s.recursive
        }
    } else if s.focused_pane == Pane::Local {
        &&& s2.focused_pane == s.focused_pane && s2.direction == s.direction
        &&& s2.remote_tree == rt && s2.remote_path == s.remote_path
        &&& if key.code == KeyCode::Enter && s.local_path is Some && s.remote_path is Some
            && !(lt.cursor < lt.nodes@.len() && lt.nodes@[lt.cursor as int].is_dir) {
            execute_spec(s, a) && s2 == s
        } else {
            exists|la: FileTreeAction| tree_key_spec(lt, key, s2.local_tree, la) && after_local(s, la, s2, a)
        }
    } else {
        &&& s2.focused_pane == s.focused_pane && s2.direction == s.direction
        &&& s2.local_tree == lt && s2.local_path == s.local_path
        &&& if key.code == KeyCode::Enter && s.local_path is Some && s.remote_path is Some
            && !(rt.cursor < rt.nodes@.len() && rt.nodes@[rt.cursor as int].is_dir) {
            execute_spec(s, a) && s2 == s
        } else {
            exists|ra: RemoteTreeAction| remote_key_spec(rt, key, s2.remote_tree, ra) && after_remote(s, ra, s2, a)
        }
    }
}

impl TransferScreen {
    /// A transfer screen over two trees, uploading, with nothing chosen.
    pub fn new(local_tree: FileTree, remote_tree: RemoteFileTree) -> (s: TransferScreen)
        ensures
            s.local_tree == local_tree,
            s.remote_tree == remote_tree,
            s.connection_name@ == remote_tree.conn.name@,
            s.direction == TransferDirection::Upload,
            s.local_path is None,
            s.remote_path is None,
            !s.recursive,
            s.focused_pane == Pane::Local,
    {
        let connection_name = owned(remote_tree.conn.name.as_str());
        TransferScreen {
            local_tree,
            remote_tree,
            direction: TransferDirection::Upload,
            local_path: None,
            remote_path: None,
            recursive: false,
            focused_pane: Pane::Local,
            connection_name,
        }
    }

    /// The copy between the chosen paths, if both are chosen.
    fn try_execute(&self) -> (a: TransferAction)
        ensures
            execute_spec(*self, a),
    {
        let local = match &self.local_path {
            Some(p) => owned(p.as_str()),
            None => return TransferAction::Nothing,
        };
        let remote = match &self.remote_path {
            Some(p) => owned(p.as_str()),
            None => return TransferAction::Nothing,
        };
        TransferAction::Execute { local_path: local, remote_path: remote, direction: self.direction, recursive: self.recursive }
    }

    /// A key press. An open path prompt takes every key; otherwise `Esc`
    /// leaves, `Tab` switches pane, `d` flips the direction, `r` toggles
    /// recursion, `Enter` on a file copies once both sides are chosen, and
    /// any other key goes to the focused tree.
    pub fn handle_key(&mut self, key: Key) -> (a: TransferAction)
        requires
            screen_ok(*old(self)),
        ensures
            screen_ok(*final(self)),
            final(self).connection_name == old(self).connection_name,
            transfer_key_spec(*old(self), key, *final(self), a),
    {
        if self.local_tree.is_jump_mode() {
            let la = self.local_tree.handle_key(key);
            let ghost gla = la;
            let a = self.take_local(la);
            assert(tree_key_spec(old(self).local_tree, key, self.local_tree, gla) && after_local(*old(self), gla, *self, a));
            return a;
        }
        if self.remote_tree.is_jump_mode() {
            let ra = self.remote_tree.handle_key(key);
            let ghost gra = ra;
            let a = self.take_remote(ra);
            assert(remote_key_spec(old(self).remote_tree, key, self.remote_tree, gra) && after_remote(*old(self), gra, *self, a));
            return a;
        }
        match key.code {
            KeyCode::Esc => {
                return TransferAction::Cancel;
            },
            KeyCode::Tab => {
                self.focused_pane = match self.focused_pane {
                    Pane::Local => Pane::Remote,
                    Pane::Remote => Pane::Local,
                };
                return TransferAction::Nothing;
            },
            KeyCode::Char('d') => {
                self.direction = match self.direction {
                    TransferDirection::Upload => TransferDirection::Download,
                    TransferDirection::Download => TransferDirection::Upload,
                };
                return TransferAction::Nothing;
            },
            KeyCode::Char('r') => {
                self.recursive = !self.recursive;
                return TransferAction::Nothing;
            },
            _ => {},
        }
        match self.focused_pane {
            Pane::Local => {
                if key.code == KeyCode::Enter && self.local_path.is_some() && self.remote_path.is_some() {
                    let on_dir = self.local_tree.cursor < self.local_tree.nodes.len()
                        && self.local_tree.nodes[self.local_tree.cursor].is_dir;
                    if !on_dir {
                        return self.try_execute();
                    }
                }
                let la = self.local_tree.handle_key(key);
                let ghost gla = la;
                let a = self.take_local(la);
                assert(tree_key_spec(old(self).local_tree, key, self.local_tree, gla) && after_local(*old(self), gla, *self, a));
                a
            },
            Pane::Remote => {
                if key.code == KeyCode::Enter && self.local_path.is_some() && self.remote_path.is_some() {
                    let on_dir = self.remote_tree.cursor < self.remote_tree.nodes.len()
                        && self.remote_tree.nodes[self.remote_tree.cursor].is_dir;
                    if !on_dir {
                        return self.try_execute();
                    }
                }
                let ra = self.remote_tree.handle_key(key);
                let ghost gra = ra;
                let a = self.take_remote(ra);
                assert(remote_key_spec(old(self).remote_tree, key, self.remote_tree, gra) && after_remote(*old(self), gra, *self, a));
                a
            },
        }
    }

    /// Takes what the local tree did.
    fn take_local(&mut self, la: FileTreeAction) -> (a: TransferAction)
        ensures
            after_local(*old(self), la, *final(self), a),
            final(self).local_tree == old(self).local_tree,
            final(self).remote_tree == old(self).remote_tree,
            final(self).remote_path == old(self).remote_path,
            final(self).direction == old(self).direction,
            final(self).focused_pane == old(self).focused_pane,
            final(self).connection_name == old(self).connection_name,
    {
        match la {
            FileTreeAction::Nothing => TransferAction::Nothing,
            FileTreeAction::Selected { path, is_dir } => {
                self.local_path = Some(path);
                self.recursive = is_dir;
                TransferAction::Nothing
            },
            other => TransferAction::Local(other),
        }
    }

    /// Takes what the remote tree did.
    fn take_remote(&mut self, ra: RemoteTreeAction) -> (a: TransferAction)
        ensures
            after_remote(*old(self), ra, *final(self), a),
            final(self).local_tree == old(self).local_tree,
            final(self).remote_tree == old(self).remote_tree,
            final(self).local_path == old(self).local_path,
            final(self).direction == old(self).direction,
            final(self).focused_pane == old(self).focused_pane,
            final(self).connection_name == old(self).connection_name,
    {
        match ra {
            RemoteTreeAction::Nothing => TransferAction::Nothing,
            RemoteTreeAction::Selected { path, is_dir } => {
                self.remote_path = Some(path);
                if is_dir {
                    self.recursive = true;
                }
                TransferAction::Nothing
            },
            other => TransferAction::Remote(other),
        }
    }
}

} // verus!
