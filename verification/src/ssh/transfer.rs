//! File transfer with `scp`.
use vstd::prelude::*;
use crate::model::connection::{opt_args, option_args, port_args, ssh_option_args, Connection, ConnectionView};
use crate::ssh::key_setup::target_text;
use crate::text::{lemma_parse_decimal, parse_u16};
use crate::text::{owned, push_text, views};

verus! {

/// Which way a file goes.
#[derive(Debug, Clone, Copy, PartialEq, Eq, Structural)]
pub enum TransferDirection {
    Upload,
    Download,
}

/// The remote side of a copy: `user@host:path`, or `host:path` without user.
pub open spec fn remote_spec_text(c: ConnectionView, remote_path: Seq<char>) -> Seq<char> {
    match c.user {
        Some(u) => u + "@"@ + c.host + ":"@ + remote_path,
        None => c.host + ":"@ + remote_path,
    }
}

/// The words of the `scp` command line: `scp`, `-r` when recursive, `-P
/// port` unless the port is 22, `-i key`, `-J jump`, `-o name=value` for
/// each option, then source and destination.
pub open spec fn scp_args(
    c: ConnectionView,
    local_path: Seq<char>,
    remote_path: Seq<char>,
    direction: TransferDirection,
    recursive: bool,
) -> Seq<Seq<char>> {
    let remote = remote_spec_text(c, remote_path);
    seq!["scp"@] + (if recursive {
        seq!["-r"@]
    } else {
        Seq::empty()
    }) + port_args("-P"@, c.port) + opt_args("-i"@, c.identity_file) + opt_args(
        "-J"@,
        c.proxy_jump,
    ) + option_args(c.ssh_options) + match direction {
        TransferDirection::Upload => seq![local_path, remote],
        TransferDirection::Download => seq![remote, local_path],
    }
}

/// The remote side of a copy for a connection.
pub fn remote_spec(conn: &Connection, remote_path: &str) -> (r: String)
    ensures
        r@ == remote_spec_text(conn@, remote_path@),
{
    let mut r = match &conn.user {
        Some(u) => {
            let mut r = u.clone();
            push_text(&mut r, "@");
            push_text(&mut r, conn.host.as_str());
            r
        },
        None => conn.host.clone(),
    };
    push_text(&mut r, ":");
    push_text(&mut r, remote_path);
    r
}

/// The words of the `scp` command line that copies between the local and
/// the remote path in the given direction.
pub fn build_scp_command(
    conn: &Connection,
    local_path: &str,
    remote_path: &str,
    direction: TransferDirection,
    recursive: bool,
) -> (args: Vec<String>)
    requires
        crate::model::connection::options_in_key_order(conn@.ssh_options),
    ensures
        views(args@) == scp_args(conn@, local_path@, remote_path@, direction, recursive),
{
    let mut args: Vec<String> = Vec::new();
    args.push(owned("scp"));
    let ghost a0 = views(args@);
    if recursive {
        args.push(owned("-r"));
    }
    let ghost a1 = views(args@);
    assert(a1 =~= seq!["scp"@] + (if recursive {
        seq!["-r"@]
    } else {
        Seq::empty()
    }));
    crate::model::connection::push_port_args(&mut args, "-P", conn.port);
    crate::model::connection::push_opt_args(&mut args, "-i", &conn.identity_file);
    crate::model::connection::push_opt_args(&mut args, "-J", &conn.proxy_jump);
    crate::model::connection::push_option_args(&mut args, &conn.ssh_options);
    let ghost a2 = views(args@);
    let remote = remote_spec(conn, remote_path);
    match direction {
        TransferDirection::Upload => {
            args.push(owned(local_path));
            args.push(remote);
        },
        TransferDirection::Download => {
            args.push(remote);
            args.push(owned(local_path));
        },
    }
    assert(views(args@) =~= scp_args(conn@, local_path@, remote_path@, direction, recursive));
    args
}

/// The number of words `scp` takes before the connection's options:
/// `scp`, `-r` when recursive, and `-P port` unless the port is 22.
pub open spec fn scp_lead_len(c: ConnectionView, recursive: bool) -> int {
    1 + (if recursive { 1int } else { 0int }) + (if c.port != 22 { 2int } else { 0int })
}

/// The connection as `scp` sees it through `ssh`'s options: the port is
/// given by `-P` and the user goes into the remote side, so neither is an
/// option of its own.
pub open spec fn without_port_and_user(c: ConnectionView) -> ConnectionView {
    ConnectionView { port: 22, user: None, ..c }
}

/// `scp` reaches the host the way `ssh` does: after `scp`, `-r` when
/// recursive and `-P` with the port (which reads back as the port) unless it
/// is 22, its words are exactly the `ssh` option words of the connection
/// without port and user (so the key, the jump host and every `-o` option
/// are passed), followed by source and destination; the remote side is the
/// login target, a colon and the remote path.
pub proof fn lemma_scp_uses_ssh_options(
    c: ConnectionView,
    local_path: Seq<char>,
    remote_path: Seq<char>,
    direction: TransferDirection,
    recursive: bool,
)
    ensures
        scp_args(c, local_path, remote_path, direction, recursive).len() == scp_lead_len(c, recursive)
            + ssh_option_args(without_port_and_user(c)).len() + 2,
        scp_args(c, local_path, remote_path, direction, recursive)[0] == "scp"@,
        recursive ==> scp_args(c, local_path, remote_path, direction, recursive)[1] == "-r"@,
        c.port != 22 ==> scp_args(c, local_path, remote_path, direction, recursive)[scp_lead_len(c, recursive) - 2]
            == "-P"@ && parse_u16(scp_args(c, local_path, remote_path, direction, recursive)[scp_lead_len(c, recursive) - 1])
            == Some(c.port),
        scp_args(c, local_path, remote_path, direction, recursive).subrange(
            scp_lead_len(c, recursive),
            scp_args(c, local_path, remote_path, direction, recursive).len() - 2,
        ) == ssh_option_args(without_port_and_user(c)),
        direction == TransferDirection::Upload ==> scp_args(c, local_path, remote_path, direction, recursive).last()
            == remote_spec_text(c, remote_path) && scp_args(c, local_path, remote_path, direction, recursive)[
            scp_args(c, local_path, remote_path, direction, recursive).len() - 2] == local_path,
        direction == TransferDirection::Download ==> scp_args(c, local_path, remote_path, direction, recursive).last()
            == local_path && scp_args(c, local_path, remote_path, direction, recursive)[
            scp_args(c, local_path, remote_path, direction, recursive).len() - 2] == remote_spec_text(c, remote_path),
        remote_spec_text(c, remote_path) == target_text(c) + ":"@ + remote_path,
{
    lemma_parse_decimal(c.port);
    let s = scp_args(c, local_path, remote_path, direction, recursive);
    let r: Seq<Seq<char>> = if recursive { seq!["-r"@] } else { Seq::empty() };
    let p = port_args("-P"@, c.port);
    let o = ssh_option_args(without_port_and_user(c));
    let e = match direction {
        TransferDirection::Upload => seq![local_path, remote_spec_text(c, remote_path)],
        TransferDirection::Download => seq![remote_spec_text(c, remote_path), local_path],
    };
    assert(o =~= opt_args("-i"@, c.identity_file) + opt_args("-J"@, c.proxy_jump) + option_args(c.ssh_options));
    assert(s =~= seq!["scp"@] + r + p + o + e);
    assert(s.subrange(scp_lead_len(c, recursive), s.len() - 2) =~= o);
    match c.user {
        Some(u) => {
            assert(remote_spec_text(c, remote_path) =~= target_text(c) + ":"@ + remote_path);
        },
        None => {},
    }
}

} // verus!
