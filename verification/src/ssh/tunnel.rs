//! The command line that keeps a tunnel open.
use vstd::prelude::*;
use crate::model::connection::{ssh_args, Connection};
use crate::model::tunnel::{flag_switch, flag_value, Tunnel};
use crate::ssh::system::SystemSshBackend;
use crate::text::{owned, views};

verus! {

/// The words of the command that runs a tunnel: the connection's `ssh`
/// command, `-N` (no remote command), then the tunnel's switch and its
/// argument as two words.
pub open spec fn tunnel_args(c: crate::model::connection::ConnectionView, t: Tunnel) -> Seq<Seq<char>> {
    ssh_args(c) + seq!["-N"@, flag_switch(t.tunnel_type), flag_value(t)]
}

/// The words of the command that runs `tunnel` over `connection`.
pub fn tunnel_command(connection: &Connection, tunnel: &Tunnel) -> (args: Vec<String>)
    requires
        crate::model::connection::options_in_key_order(connection@.ssh_options),
    ensures
        views(args@) == tunnel_args(connection@, *tunnel),
{
    let mut args = SystemSshBackend::build_command(connection);
    let ghost a0 = views(args@);
    args.push(owned("-N"));
    args.push(owned(tunnel.flag_switch()));
    args.push(tunnel.flag_value());
    assert(views(args@) =~= a0 + seq!["-N"@, flag_switch(tunnel.tunnel_type), flag_value(*tunnel)]);
    args
}

} // verus!
