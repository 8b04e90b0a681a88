//! The command line of the system `ssh` client.
use vstd::prelude::*;
use crate::model::connection::{push_ssh_option_args, ssh_args, Connection};
use crate::text::{owned, views};

verus! {

/// Connects through the `ssh` program found on the system.
pub struct SystemSshBackend;

impl SystemSshBackend {
    /// The words of the `ssh` command line that opens a connection: `ssh`,
    /// `-p port` unless the port is 22, `-l user`, `-i key`, `-J jump`,
    /// `-o name=value` for each option, and the host.
    pub fn build_command(profile: &Connection) -> (args: Vec<String>)
        requires
            crate::model::connection::options_in_key_order(profile@.ssh_options),
        ensures
            views(args@) == ssh_args(profile@),
    {
        let mut args: Vec<String> = Vec::new();
        args.push(owned("ssh"));
        assert(views(args@) =~= seq!["ssh"@]);
        push_ssh_option_args(&mut args, profile);
        let ghost mid = args@;
        args.push(profile.host.clone());
        assert(views(args@) =~= views(mid).push(profile.host@));
        assert(views(args@) =~= ssh_args(profile@));
        args
    }
}

} // verus!
