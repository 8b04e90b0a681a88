//! Port-forwarding tunnels over SSH.
use vstd::prelude::*;
use crate::text::{decimal, owned, push_decimal, push_text};
use crate::model::ids::new_id;

verus! {

/// The kind of port forwarding.
#[derive(Debug, Clone, Copy, PartialEq, Eq, Structural)]
pub enum TunnelType {
    Local,
    Remote,
    Dynamic,
}

/// The one-letter label of a tunnel kind.
pub open spec fn type_label(t: TunnelType) -> Seq<char> {
    match t {
        TunnelType::Local => "L"@,
        TunnelType::Remote => "R"@,
        TunnelType::Dynamic => "D"@,
    }
}

/// The display name of a tunnel kind.
pub open spec fn kind_name(t: TunnelType) -> Seq<char> {
    match t {
        TunnelType::Local => "Local"@,
        TunnelType::Remote => "Remote"@,
        TunnelType::Dynamic => "Dynamic"@,
    }
}

impl TunnelType {
    /// The one-letter label: `L`, `R` or `D`.
    pub fn label(self) -> (r: &'static str)
        ensures
            r@ == type_label(self),
    {
        match self {
            TunnelType::Local => "L",
            TunnelType::Remote => "R",
            TunnelType::Dynamic => "D",
        }
    }

    /// The name shown for the kind: `Local`, `Remote` or `Dynamic`.
    pub fn display_name(self) -> (r: &'static str)
        ensures
            r@ == kind_name(self),
    {
        match self {
            TunnelType::Local => "Local",
            TunnelType::Remote => "Remote",
            TunnelType::Dynamic => "Dynamic",
        }
    }
}

/// A tunnel definition of a connection.
#[derive(Debug, Clone)]
pub struct Tunnel {
    pub id: String,
    pub name: String,
    pub tunnel_type: TunnelType,
    pub bind_address: String,
    pub bind_port: u16,
    pub remote_host: Option<String>,
    pub remote_port: Option<u16>,
}

/// A tunnel as mathematical values.
pub struct TunnelView {
    pub id: Seq<char>,
    pub name: Seq<char>,
    pub tunnel_type: TunnelType,
    pub bind_address: Seq<char>,
    pub bind_port: u16,
    pub remote_host: Option<Seq<char>>,
    pub remote_port: Option<u16>,
}

impl View for Tunnel {
    type V = TunnelView;

    open spec fn view(&self) -> TunnelView {
        TunnelView {
            id: self.id@,
            name: self.name@,
            tunnel_type: self.tunnel_type,
            bind_address: self.bind_address@,
            bind_port: self.bind_port,
            remote_host: crate::text::opt_view(self.remote_host),
            remote_port: self.remote_port,
        }
    }
}

/// The views of a list of tunnels.
pub open spec fn tunnel_views(v: Seq<Tunnel>) -> Seq<TunnelView> {
    v.map_values(|t: Tunnel| t@)
}

/// The address a tunnel binds to unless told otherwise.
pub open spec fn default_bind() -> Seq<char> {
    "127.0.0.1"@
}

/// The bind address given to tunnels that do not name one: `127.0.0.1`.
pub fn default_bind_address() -> (s: String)
    ensures
        s@ == default_bind(),
{
    owned("127.0.0.1")
}

/// Why a tunnel definition is not usable.
#[derive(Debug, Clone, Copy, PartialEq, Eq, Structural)]
pub enum TunnelError {
    /// A local or remote tunnel without a remote host.
    MissingRemoteHost(TunnelType),
    /// A local or remote tunnel without a remote port.
    MissingRemotePort(TunnelType),
}

impl TunnelError {
    /// The message of the error, such as `L tunnel requires a remote host`.
    pub fn message(&self) -> (r: String)
        ensures
            r@ == match *self {
                TunnelError::MissingRemoteHost(t) => type_label(t) + " tunnel requires a remote host"@,
                TunnelError::MissingRemotePort(t) => type_label(t) + " tunnel requires a remote port"@,
            },
    {
        match *self {
            TunnelError::MissingRemoteHost(t) => {
                let mut s = owned(t.label());
                push_text(&mut s, " tunnel requires a remote host");
                s
            },
            TunnelError::MissingRemotePort(t) => {
                let mut s = owned(t.label());
                push_text(&mut s, " tunnel requires a remote port");
                s
            },
        }
    }
}

/// The remote host of a tunnel, or `fallback` when it has none.
pub open spec fn host_or(t: Tunnel, fallback: Seq<char>) -> Seq<char> {
    match t.remote_host {
        Some(h) => h@,
        None => fallback,
    }
}

/// The switch of the SSH option for a tunnel kind: `-L`, `-R` or `-D`.
pub open spec fn flag_switch(t: TunnelType) -> Seq<char> {
    match t {
        TunnelType::Local => "-L"@,
        TunnelType::Remote => "-R"@,
        TunnelType::Dynamic => "-D"@,
    }
}

/// The argument of the tunnel's SSH option: `bind:port` for a dynamic
/// tunnel, `bind:port:host:hostport` otherwise, with `localhost` and `0`
/// for a missing remote host and port.
pub open spec fn flag_value(t: Tunnel) -> Seq<char> {
    match t.tunnel_type {
        TunnelType::Dynamic => t.bind_address@ + ":"@ + decimal(t.bind_port as nat),
        _ => t.bind_address@ + ":"@ + decimal(t.bind_port as nat) + ":"@ + host_or(
            t,
            "localhost"@,
        ) + ":"@ + decimal(
            match t.remote_port {
                Some(p) => p as nat,
                None => 0,
            },
        ),
    }
}

/// The SSH option that sets up the tunnel, such as `-L 127.0.0.1:5432:db:5432`.
pub open spec fn flag_text(t: Tunnel) -> Seq<char> {
    flag_switch(t.tunnel_type) + " "@ + flag_value(t)
}

/// Where a tunnel forwards to, as shown in the tunnel list.
pub open spec fn target_text(t: Tunnel) -> Seq<char> {
    match t.tunnel_type {
        TunnelType::Dynamic => "-"@,
        _ => host_or(t, "?"@) + ":"@ + match t.remote_port {
            Some(p) => decimal(p as nat),
            None => "?"@,
        },
    }
}

impl Tunnel {
    /// A tunnel with a fresh id, bound to `127.0.0.1`, without remote end.
    pub fn new(name: String, tunnel_type: TunnelType, bind_port: u16) -> (t: Tunnel)
        ensures
            t.id@.len() == 36,
            t.name == name,
            t.tunnel_type == tunnel_type,
            t.bind_address@ == default_bind(),
            t.bind_port == bind_port,
            t.remote_host is None,
            t.remote_port is None,
    {
        Tunnel {
            id: new_id(),
            name,
            tunnel_type,
            bind_address: default_bind_address(),
            bind_port,
            remote_host: None,
            remote_port: None,
        }
    }

    /// A copy of the tunnel.
    pub fn duplicate(&self) -> (r: Tunnel)
        ensures
            r@ == self@,
    {
        Tunnel {
            id: crate::text::owned(self.id.as_str()),
            name: crate::text::owned(self.name.as_str()),
            tunnel_type: self.tunnel_type,
            bind_address: crate::text::owned(self.bind_address.as_str()),
            bind_port: self.bind_port,
            remote_host: crate::text::copy_opt(&self.remote_host),
            remote_port: self.remote_port,
        }
    }

    /// Checks that a local or remote tunnel has its remote host and port.
    pub fn validate(&self) -> (r: Result<(), TunnelError>)
        ensures
            r == (if self.tunnel_type != TunnelType::Dynamic && self.remote_host is None {
                Err(TunnelError::MissingRemoteHost(self.tunnel_type))
            } else if self.tunnel_type != TunnelType::Dynamic && self.remote_port is None {
                Err(TunnelError::MissingRemotePort(self.tunnel_type))
            } else {
                Ok(())
            }),
    {
        match self.tunnel_type {
            TunnelType::Local | TunnelType::Remote => {
                if self.remote_host.is_none() {
                    return Err(TunnelError::MissingRemoteHost(self.tunnel_type));
                }
                if self.remote_port.is_none() {
                    return Err(TunnelError::MissingRemotePort(self.tunnel_type));
                }
            },
            TunnelType::Dynamic => {},
        }
        Ok(())
    }

    /// The switch of the tunnel's SSH option: `-L`, `-R` or `-D`.
    pub fn flag_switch(&self) -> (r: &'static str)
        ensures
            r@ == flag_switch(self.tunnel_type),
    {
        match self.tunnel_type {
            TunnelType::Local => "-L",
            TunnelType::Remote => "-R",
            TunnelType::Dynamic => "-D",
        }
    }

    /// The argument of the tunnel's SSH option.
    pub fn flag_value(&self) -> (r: String)
        ensures
            r@ == flag_value(*self),
    {
        match self.tunnel_type {
            TunnelType::Dynamic => {
                let mut s = owned(self.bind_address.as_str());
                push_text(&mut s, ":");
                push_decimal(&mut s, self.bind_port as u64);
                s
            },
            _ => {
                let mut s = owned(self.bind_address.as_str());
                push_text(&mut s, ":");
                push_decimal(&mut s, self.bind_port as u64);
                push_text(&mut s, ":");
                match &self.remote_host {
                    Some(h) => push_text(&mut s, h.as_str()),
                    None => push_text(&mut s, "localhost"),
                }
                push_text(&mut s, ":");
                match self.remote_port {
                    Some(p) => push_decimal(&mut s, p as u64),
                    None => push_decimal(&mut s, 0),
                }
                s
            },
        }
    }

    /// The SSH option that sets up the tunnel: the switch, a space and the
    /// argument, such as `-L 127.0.0.1:5432:db.internal:5432`.
    pub fn ssh_flag(&self) -> (r: String)
        ensures
            r@ == flag_text(*self),
    {
        let mut s = owned(self.flag_switch());
        push_text(&mut s, " ");
        let v = self.flag_value();
        push_text(&mut s, v.as_str());
        s
    }

    /// Where the tunnel forwards to: `host:port`, with `?` for a missing
    /// part, or `-` for a dynamic tunnel.
    pub fn remote_target(&self) -> (r: String)
        ensures
            r@ == target_text(*self),
    {
        match self.tunnel_type {
            TunnelType::Dynamic => owned("-"),
            _ => {
                let mut s = match &self.remote_host {
                    Some(h) => owned(h.as_str()),
                    None => owned("?"),
                };
                push_text(&mut s, ":");
                match self.remote_port {
                    Some(p) => push_decimal(&mut s, p as u64),
                    None => push_text(&mut s, "?"),
                }
                s
            },
        }
    }
}

} // verus!
