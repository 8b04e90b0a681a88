# sshkeeper

A terminal manager for SSH connections: saved connections with groups and
tags, import from `~/.ssh/config`, quick remote actions with parameter
forms, file transfer over `scp` between a local and a remote file tree, key
authentication setup and port-forwarding tunnels.

## Layout

- `src/` — the library, verified with Verus. It holds the connection and
  tunnel models, the command lines built from them (`ssh`, `scp`,
  `ssh-copy-id`, tunnels), the layouts of the stored files, the import of
  SSH configuration, the reading of remote `ls` output, and the state of
  every screen with what a key press does to it. Screens answer a key with
  an action; what needs the file system, a process or the terminal is
  asked for, not done.
- `app/` — the program around the library: the event loop, drawing with
  ratatui, reading and writing files (with serde forms of the stored
  types), and running `ssh`, `scp` and `ssh-keygen`.
- `tests/` — tests of the library.

Connections are stored in `~/.sshkeeper/connections.toml`.
