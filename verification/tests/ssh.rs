use sshkeeper::model::connection::Connection;
use sshkeeper::model::tunnel::{Tunnel, TunnelType};
use sshkeeper::ssh::actions::{build_actions, build_ssh_command, shell_escape, ActionCategory, ParamType, QuickAction};
use sshkeeper::ssh::key_setup::{authorize_command, authorize_ssh_command, copy_id_command, deploy_target};
use sshkeeper::ssh::transfer::{build_scp_command, remote_spec, TransferDirection};
use sshkeeper::ssh::tunnel::tunnel_command;

fn conn() -> Connection {
    let mut c = Connection::new("web".into(), "example.com".into());
    c.user = Some("deploy".into());
    c
}

#[test]
fn shell_escape_forms() {
    assert_eq!(shell_escape(""), "''");
    assert_eq!(shell_escape("nginx.service"), "nginx.service");
    assert_eq!(shell_escape("/var/log/syslog"), "/var/log/syslog");
    assert_eq!(shell_escape("a b"), "'a b'");
    assert_eq!(shell_escape("it's"), "'it'\\''s'");
    assert_eq!(shell_escape("$(rm -rf /)"), "'$(rm -rf /)'");
}

#[test]
fn actions_are_all_there() {
    let actions = build_actions();
    assert_eq!(actions.len(), 20);
    assert_eq!(actions[0].category, ActionCategory::SystemInfo);
    assert!(!actions[0].has_params());
    let confirming: Vec<&str> = actions.iter().filter(|a| a.confirm_message.is_some()).map(|a| a.name).collect();
    assert_eq!(confirming, vec!["Reboot Server", "Stop All Containers", "Prune Unused Images"]);
    for a in &actions {
        if let Some(m) = a.confirm_message {
            assert!(m.ends_with("Are you sure?"));
        }
        for p in &a.params {
            assert!(!matches!(p.param_type, ParamType::Confirm));
            assert!(a.command_template.contains(&format!("{{{}}}", p.key)));
        }
        for (i, p) in a.params.iter().enumerate() {
            assert!(a.params[i + 1..].iter().all(|q| q.key != p.key));
        }
    }
    for (i, a) in actions.iter().enumerate() {
        assert!(actions[i + 1..].iter().all(|b| b.name != a.name));
        let mut rest = a.command_template;
        while let Some(open) = rest.find('{') {
            let close = rest[open..].find('}').expect("a closed placeholder") + open;
            let key = &rest[open + 1..close];
            assert!(a.params.iter().any(|p| p.key == key), "{} has no parameter {}", a.name, key);
            rest = &rest[close + 1..];
        }
    }
    let logs = &actions[10];
    assert_eq!(logs.name, "Service Logs");
    assert_eq!(logs.command_template, "journalctl -u {service} -n {lines} --no-pager");
    assert_eq!(logs.params[0].key, "service");
    assert_eq!(logs.params[1].key, "lines");
    assert!(matches!(logs.params[1].param_type, ParamType::Text { default: "50" }));
    assert_eq!(actions[19].category, ActionCategory::Docker);
}

#[test]
fn category_labels() {
    assert_eq!(ActionCategory::SystemInfo.label(), "System Info");
    assert_eq!(ActionCategory::ServiceManagement.label(), "Service Management");
    assert_eq!(ActionCategory::Docker.label(), "Docker");
}

#[test]
fn build_command_fills_and_quotes_values() {
    let actions = build_actions();
    let with_param = actions
        .iter()
        .find(|a| a.params.iter().any(|p| matches!(p.param_type, ParamType::Select { .. })))
        .expect("an action with a pick-one parameter");
    let key = with_param.params[0].key;
    let value = "my service";
    let cmd = with_param.build_command(&[(key.to_string(), value.to_string())]);
    assert!(cmd.contains("'my service'"));
    assert!(!cmd.contains(&format!("{{{}}}", key)));
}

#[test]
fn build_command_substitutes_each_value_once() {
    let a = QuickAction {
        name: "Echo",
        category: ActionCategory::SystemInfo,
        description: "Echo two values",
        command_template: "echo {a} {b}",
        params: vec![],
        confirm_message: None,
    };
    let values = vec![("a".to_string(), "{b}".to_string()), ("b".to_string(), "x; rm".to_string())];
    assert_eq!(a.build_command(&values), "echo '{b}' 'x; rm'");
    let twice = vec![("a".to_string(), "one".to_string()), ("a".to_string(), "two".to_string())];
    assert_eq!(a.build_command(&twice), "echo one {b}");
}

#[test]
fn build_command_without_values_is_the_template() {
    let actions = build_actions();
    assert_eq!(actions[0].build_command(&[]), actions[0].command_template);
}

#[test]
fn duplicate_action() {
    let actions = build_actions();
    let d = actions[5].duplicate();
    assert_eq!(d.name, actions[5].name);
    assert_eq!(d.params.len(), actions[5].params.len());
}

#[test]
fn ssh_command_for_remote_action() {
    let c = conn();
    assert_eq!(build_ssh_command(&c, "uptime"), vec!["ssh", "-l", "deploy", "example.com", "uptime"]);
}

#[test]
fn scp_upload_and_download() {
    let mut c = conn();
    c.port = 2222;
    c.identity_file = Some("/k".into());
    assert_eq!(
        build_scp_command(&c, "/tmp/a.txt", "/srv/a.txt", TransferDirection::Upload, false),
        vec!["scp", "-P", "2222", "-i", "/k", "/tmp/a.txt", "deploy@example.com:/srv/a.txt"]
    );
    assert_eq!(
        build_scp_command(&c, "/tmp/d", "/srv/d", TransferDirection::Download, true),
        vec!["scp", "-r", "-P", "2222", "-i", "/k", "deploy@example.com:/srv/d", "/tmp/d"]
    );
    let plain = Connection::new("p".into(), "h".into());
    assert_eq!(remote_spec(&plain, "/x"), "h:/x");
}

#[test]
fn key_setup_commands() {
    let mut c = conn();
    assert_eq!(deploy_target(&c), "deploy@example.com");
    assert_eq!(
        copy_id_command(&c, "/home/me/.ssh/id_ed25519.pub"),
        vec!["ssh-copy-id", "-i", "/home/me/.ssh/id_ed25519.pub", "deploy@example.com"]
    );
    c.port = 2200;
    assert_eq!(
        authorize_command("ssh-ed25519 AAAA me"),
        "mkdir -p ~/.ssh && echo 'ssh-ed25519 AAAA me' >> ~/.ssh/authorized_keys && chmod 600 ~/.ssh/authorized_keys && chmod 700 ~/.ssh"
    );
    assert_eq!(authorize_ssh_command(&c, "true"), vec!["ssh", "-p", "2200", "deploy@example.com", "true"]);
}

#[test]
fn tunnel_process_command() {
    let c = conn();
    let mut t = Tunnel::new("pg".into(), TunnelType::Local, 5432);
    t.remote_host = Some("db".into());
    t.remote_port = Some(5432);
    assert_eq!(
        tunnel_command(&c, &t),
        vec!["ssh", "-l", "deploy", "example.com", "-N", "-L", "127.0.0.1:5432:db:5432"]
    );
}
