//! Setting up key-based authentication on a server.
use vstd::prelude::*;
use crate::model::connection::{port_args, Connection, ConnectionView};
use crate::text::{lemma_parse_decimal, owned, parse_u16, push_text, views};

verus! {

/// Where the private key of a successful setup is.
pub struct KeySetupResult {
    pub private_key_path: String,
}

/// The login target of a connection: `user@host`, or the host alone.
pub open spec fn target_text(c: ConnectionView) -> Seq<char> {
    match c.user {
        Some(u) => u + "@"@ + c.host,
        None => c.host,
    }
}

/// The login target of a connection: `user@host`, or the host alone.
pub fn deploy_target(conn: &Connection) -> (r: String)
    ensures
        r@ == target_text(conn@),
{
    match &conn.user {
        Some(u) => {
            let mut r = u.clone();
            push_text(&mut r, "@");
            push_text(&mut r, conn.host.as_str());
            r
        },
        None => conn.host.clone(),
    }
}

/// The words of the `ssh-copy-id` command that installs a public key:
/// `ssh-copy-id -i key`, `-p port` unless the port is 22, and the target.
pub open spec fn copy_id_args(c: ConnectionView, pub_key_path: Seq<char>) -> Seq<Seq<char>> {
    seq!["ssh-copy-id"@, "-i"@, pub_key_path] + port_args("-p"@, c.port) + seq![target_text(c)]
}

/// The words of the `ssh-copy-id` command that installs the public key at
/// `pub_key_path` on the server of `conn`.
pub fn copy_id_command(conn: &Connection, pub_key_path: &str) -> (args: Vec<String>)
    ensures
        views(args@) == copy_id_args(conn@, pub_key_path@),
{
    let mut args: Vec<String> = Vec::new();
    args.push(owned("ssh-copy-id"));
    args.push(owned("-i"));
    args.push(owned(pub_key_path));
    let ghost a0 = views(args@);
    assert(a0 =~= seq!["ssh-copy-id"@, "-i"@, pub_key_path@]);
    crate::model::connection::push_port_args(&mut args, "-p", conn.port);
    let ghost a1 = views(args@);
    args.push(deploy_target(conn));
    assert(views(args@) =~= a1.push(target_text(conn@)));
    args
}

/// The remote shell command that appends a public key to the authorized
/// keys and sets the permissions SSH requires.
pub open spec fn authorize_command_text(pub_key: Seq<char>) -> Seq<char> {
    "mkdir -p ~/.ssh && echo '"@ + pub_key
        + "' >> ~/.ssh/authorized_keys && chmod 600 ~/.ssh/authorized_keys && chmod 700 ~/.ssh"@
}

/// The remote shell command that installs `pub_key` (already trimmed).
pub fn authorize_command(pub_key: &str) -> (r: String)
    ensures
        r@ == authorize_command_text(pub_key@),
{
    let mut r = owned("mkdir -p ~/.ssh && echo '");
    push_text(&mut r, pub_key);
    push_text(
        &mut r,
        "' >> ~/.ssh/authorized_keys && chmod 600 ~/.ssh/authorized_keys && chmod 700 ~/.ssh",
    );
    r
}

/// The words of the `ssh` command that installs a key where no
/// `ssh-copy-id` exists: `ssh`, `-p port` unless 22, the target and the
/// remote command.
pub open spec fn authorize_args(c: ConnectionView, remote_cmd: Seq<char>) -> Seq<Seq<char>> {
    seq!["ssh"@] + port_args("-p"@, c.port) + seq![target_text(c), remote_cmd]
}

/// The words of the `ssh` command that runs `remote_cmd` to install a key.
pub fn authorize_ssh_command(conn: &Connection, remote_cmd: &str) -> (args: Vec<String>)
    ensures
        views(args@) == authorize_args(conn@, remote_cmd@),
{
    let mut args: Vec<String> = Vec::new();
    args.push(owned("ssh"));
    assert(views(args@) =~= seq!["ssh"@]);
    crate::model::connection::push_port_args(&mut args, "-p", conn.port);
    let ghost a1 = views(args@);
    args.push(deploy_target(conn));
    args.push(owned(remote_cmd));
    assert(views(args@) =~= a1 + seq![target_text(conn@), remote_cmd@]);
    args
}

/// The `ssh-copy-id` words install the key at the connection's port: they
/// are `ssh-copy-id -i key`, then `-p` and the port (which reads back as
/// the port) whenever the port is not 22, then the login target
/// (`user@host`, or the host alone).
pub proof fn lemma_copy_id_reaches_port(c: ConnectionView, pub_key_path: Seq<char>)
    ensures
        copy_id_args(c, pub_key_path).len() == (if c.port == 22 { 4int } else { 6int }),
        copy_id_args(c, pub_key_path)[0] == "ssh-copy-id"@,
        copy_id_args(c, pub_key_path)[1] == "-i"@,
        copy_id_args(c, pub_key_path)[2] == pub_key_path,
        c.port != 22 ==> copy_id_args(c, pub_key_path)[3] == "-p"@
            && parse_u16(copy_id_args(c, pub_key_path)[4]) == Some(c.port),
        copy_id_args(c, pub_key_path).last() == target_text(c),
        target_text(c) == (match c.user {
            Some(u) => u + "@"@ + c.host,
            None => c.host,
        }),
{
    lemma_parse_decimal(c.port);
}

/// The `ssh` words that install a key where no `ssh-copy-id` exists reach
/// the connection's port the same way: `ssh`, then `-p` and the port
/// whenever it is not 22, the login target and the remote command.
pub proof fn lemma_authorize_reaches_port(c: ConnectionView, remote_cmd: Seq<char>)
    ensures
        authorize_args(c, remote_cmd).len() == (if c.port == 22 { 3int } else { 5int }),
        authorize_args(c, remote_cmd)[0] == "ssh"@,
        c.port != 22 ==> authorize_args(c, remote_cmd)[1] == "-p"@
            && parse_u16(authorize_args(c, remote_cmd)[2]) == Some(c.port),
        authorize_args(c, remote_cmd)[authorize_args(c, remote_cmd).len() - 2] == target_text(c),
        authorize_args(c, remote_cmd).last() == remote_cmd,
{
    lemma_parse_decimal(c.port);
}

} // verus!
