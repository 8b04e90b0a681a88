use sshkeeper::model::tunnel::{Tunnel, TunnelError, TunnelType};

#[test]
fn test_local_tunnel_ssh_flag() {
    let mut t = Tunnel::new("pg".into(), TunnelType::Local, 5432);
    t.remote_host = Some("db.internal".into());
    t.remote_port = Some(5432);
    assert_eq!(t.ssh_flag(), "-L 127.0.0.1:5432:db.internal:5432");
}

#[test]
fn test_remote_tunnel_ssh_flag() {
    let mut t = Tunnel::new("webhook".into(), TunnelType::Remote, 8080);
    t.remote_host = Some("localhost".into());
    t.remote_port = Some(3000);
    assert_eq!(t.ssh_flag(), "-R 127.0.0.1:8080:localhost:3000");
}

#[test]
fn test_dynamic_tunnel_ssh_flag() {
    let t = Tunnel::new("socks".into(), TunnelType::Dynamic, 1080);
    assert_eq!(t.ssh_flag(), "-D 127.0.0.1:1080");
}

#[test]
fn test_validate_local_missing_remote_host() {
    let t = Tunnel::new("test".into(), TunnelType::Local, 5432);
    assert!(t.validate().is_err());
}

#[test]
fn test_validate_local_missing_remote_port() {
    let mut t = Tunnel::new("test".into(), TunnelType::Local, 5432);
    t.remote_host = Some("db".into());
    assert!(t.validate().is_err());
}

#[test]
fn test_validate_local_ok() {
    let mut t = Tunnel::new("test".into(), TunnelType::Local, 5432);
    t.remote_host = Some("db".into());
    t.remote_port = Some(5432);
    assert!(t.validate().is_ok());
}

#[test]
fn test_validate_dynamic_ok() {
    let t = Tunnel::new("socks".into(), TunnelType::Dynamic, 1080);
    assert!(t.validate().is_ok());
}

#[test]
fn new_tunnel_defaults() {
    let t = Tunnel::new("x".into(), TunnelType::Local, 22);
    assert_eq!(t.id.len(), 36);
    assert_eq!(t.bind_address, "127.0.0.1");
    assert!(t.remote_host.is_none());
    assert!(t.remote_port.is_none());
}

#[test]
fn missing_host_error_message() {
    let t = Tunnel::new("test".into(), TunnelType::Remote, 5432);
    match t.validate() {
        Err(e) => {
            assert!(matches!(e, TunnelError::MissingRemoteHost(TunnelType::Remote)));
            assert_eq!(e.message(), "R tunnel requires a remote host");
        }
        Ok(()) => panic!("expected an error"),
    }
}

#[test]
fn missing_port_error_message() {
    let mut t = Tunnel::new("test".into(), TunnelType::Local, 5432);
    t.remote_host = Some("db".into());
    match t.validate() {
        Err(e) => assert_eq!(e.message(), "L tunnel requires a remote port"),
        Ok(()) => panic!("expected an error"),
    }
}

#[test]
fn remote_target_forms() {
    let mut t = Tunnel::new("pg".into(), TunnelType::Local, 5432);
    assert_eq!(t.remote_target(), "?:?");
    t.remote_host = Some("db".into());
    t.remote_port = Some(6543);
    assert_eq!(t.remote_target(), "db:6543");
    let d = Tunnel::new("socks".into(), TunnelType::Dynamic, 1080);
    assert_eq!(d.remote_target(), "-");
}

#[test]
fn tunnel_labels() {
    assert_eq!(TunnelType::Local.label(), "L");
    assert_eq!(TunnelType::Remote.label(), "R");
    assert_eq!(TunnelType::Dynamic.label(), "D");
    assert_eq!(TunnelType::Local.display_name(), "Local");
    assert_eq!(TunnelType::Dynamic.display_name(), "Dynamic");
}

#[test]
fn incomplete_tunnel_flag_uses_fallbacks() {
    let t = Tunnel::new("pg".into(), TunnelType::Remote, 5432);
    assert_eq!(t.ssh_flag(), "-R 127.0.0.1:5432:localhost:0");
}
