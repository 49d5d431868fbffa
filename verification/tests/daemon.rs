use wsproxy::daemon::registry::{
    children_of, keep_alive, listing_line, listing_row_text, lock_decision, lock_path, next_daemon_id, remove_daemon, shutdown,
    shutdown_request, signal_delivered, DaemonInfo, DaemonRole, KillRequest, LockAttempt, LockDecision,
};
use wsproxy::daemon::server_only::{server_command, spawn};
use wsproxy::daemon::{
    backup_name, child_args, daemon_arguments, is_backup_of, restart_backoff, role_of, spawn_client,
    spawn_server, worker_ready, MAX_BACKOFF_MS, MIN_BACKOFF_MS,
};
use wsproxy::port_registry::{parse_daemon_id, report_port, PortRecord};

fn strings(v: &[&str]) -> Vec<String> {
    v.iter().map(|s| s.to_string()).collect()
}

fn daemon(id: u32, pid: u32) -> DaemonInfo {
    DaemonInfo { id, pid, role: DaemonRole::Server, args: vec![], started_at: 0, port: None }
}

#[test]
fn server_daemon_arguments() {
    let l = spawn_server(
        None,
        Some("0.0.0.0:8080".to_string()),
        strings(&["/a=x:1", "/b=y:2"]),
        Some("z:3".to_string()),
        Some("c.pem".to_string()),
        Some("k.pem".to_string()),
        true,
    );
    assert_eq!(l.role, DaemonRole::Server);
    assert_eq!(
        l.args,
        strings(&[
            "server", "--listen", "0.0.0.0:8080", "--route", "/a=x:1", "--route", "/b=y:2",
            "--default-target", "z:3", "--tls-cert", "c.pem", "--tls-key", "k.pem", "--tls-self-signed"
        ])
    );
    let with_config = spawn_server(Some("cfg.toml".to_string()), Some("ignored".to_string()), vec![], None, None, None, true);
    assert_eq!(with_config.args, strings(&["server", "--config", "cfg.toml"]));
}

#[test]
fn client_daemon_arguments() {
    let l = spawn_client("127.0.0.1:2222".to_string(), "wss://h/ssh".to_string(), true, Some("ca.pem".to_string()));
    assert_eq!(l.role, DaemonRole::Client);
    assert_eq!(
        l.args,
        strings(&["client", "--listen", "127.0.0.1:2222", "--server", "wss://h/ssh", "--insecure", "--tls-ca-cert", "ca.pem"])
    );
    assert_eq!(daemon_arguments(&l)[0], "daemon");
    assert_eq!(daemon_arguments(&l)[1..], l.args[..]);
}

#[test]
fn restart_loop_command() {
    let args = strings(&["/usr/bin/wsproxy", "daemon", "client", "--listen", "a"]);
    let child = child_args(&args);
    assert_eq!(child, strings(&["/usr/bin/wsproxy", "client", "--listen", "a"]));
    assert_eq!(role_of(&child), DaemonRole::Client);
    let server = child_args(&strings(&["wsproxy", "daemon", "server", "daemon"]));
    assert_eq!(server, strings(&["wsproxy", "server", "daemon"]));
    assert_eq!(role_of(&server), DaemonRole::Server);
    assert_eq!(role_of(&strings(&["wsproxy"])), DaemonRole::Server);
    assert_eq!(DaemonRole::Client.as_str(), "client");
    assert_eq!(DaemonRole::Server.as_str(), "server");
}

#[test]
fn backoff_doubles_and_caps() {
    let mut b = MIN_BACKOFF_MS;
    let mut sleeps = vec![];
    for _ in 0..5 {
        let s = restart_backoff(b, false);
        sleeps.push(s.sleep_ms);
        b = s.next_ms;
    }
    assert_eq!(sleeps, vec![1, 2, 4, 8, 16]);
    let capped = restart_backoff(200_000, false);
    assert_eq!(capped.sleep_ms, 200_000);
    assert_eq!(capped.next_ms, MAX_BACKOFF_MS);
    // A clean exit resets the delay; failures then double it again.
    let mut b = 16;
    let mut sleeps = vec![];
    for clean in [true, false, false, true, false] {
        let s = restart_backoff(b, clean);
        sleeps.push(s.sleep_ms);
        b = s.next_ms;
    }
    assert_eq!(sleeps, vec![1, 2, 4, 1, 2]);
    let clean = restart_backoff(64, true);
    assert_eq!(clean.sleep_ms, MIN_BACKOFF_MS);
    assert_eq!(clean.next_ms, 2);
}

#[test]
fn readiness_and_backups() {
    assert!(worker_ready("Proxy server listening on 0.0.0.0:8080"));
    assert!(worker_ready("Proxy client listening on 127.0.0.1:1, forwarding to ws://x"));
    assert!(!worker_ready("Starting wsproxy server..."));
    assert_eq!(backup_name("/usr/bin/wsproxy", 3), "/usr/bin/wsproxy.old.3");
    assert!(is_backup_of("wsproxy", "wsproxy.old.12"));
    assert!(!is_backup_of("wsproxy", "wsproxy.new"));
}

#[test]
fn registry_identifiers() {
    assert_eq!(next_daemon_id(&vec![]), 1);
    let ds = vec![daemon(4, 100), daemon(9, 101), daemon(2, 102)];
    assert_eq!(next_daemon_id(&ds), 10);
    let alive = keep_alive(ds.clone(), &vec![true, false, true]);
    assert_eq!(alive.iter().map(|d| d.id).collect::<Vec<_>>(), vec![4, 2]);
    let mut ds2 = ds.clone();
    remove_daemon(&mut ds2, 9);
    assert_eq!(ds2.iter().map(|d| d.id).collect::<Vec<_>>(), vec![4, 2]);
}

#[test]
fn registry_shutdown() {
    let ds = vec![daemon(1, 100), daemon(2, 200)];
    assert_eq!(shutdown_request(&ds, 2, true), Some(KillRequest { pid: 200, force: true }));
    assert_eq!(shutdown_request(&ds, 7, false), None);
    let mut a = ds.clone();
    assert!(shutdown(&mut a, 2, true));
    assert_eq!(a.len(), 1);
    let mut b = ds.clone();
    assert!(!shutdown(&mut b, 2, false));
    assert_eq!(b.len(), 2);
    let mut c = ds.clone();
    assert!(!shutdown(&mut c, 5, true));
    assert_eq!(c.len(), 2);
}

#[test]
fn registry_lock() {
    assert_eq!(lock_path("/home/u/.local/share/wsproxy/daemons.json"), "/home/u/.local/share/wsproxy/daemons.lock");
    assert_eq!(lock_path("daemons"), "daemons.lock");
    assert_eq!(lock_decision(LockAttempt::Created, None, 0), LockDecision::Acquired);
    assert_eq!(lock_decision(LockAttempt::Failed, None, 0), LockDecision::Fail);
    assert_eq!(lock_decision(LockAttempt::AlreadyExists, Some(31_000_000_000), 0), LockDecision::RemoveStale);
    assert_eq!(lock_decision(LockAttempt::AlreadyExists, Some(1), 6_000_000_000), LockDecision::TimedOut);
    assert_eq!(lock_decision(LockAttempt::AlreadyExists, None, 1_000), LockDecision::Wait);
}

#[test]
fn signals_and_children() {
    assert!(signal_delivered(0, None, 3));
    assert!(signal_delivered(-1, Some(3), 3));
    assert!(!signal_delivered(-1, Some(1), 3));
    let ps = vec![(10, Some(1)), (11, None), (12, Some(1)), (13, Some(10))];
    assert_eq!(children_of(&ps, 1), vec![10, 12]);
    assert_eq!(children_of(&ps, 99), Vec::<u32>::new());
}

#[test]
fn port_reports() {
    assert_eq!(parse_daemon_id("42"), Some(42));
    assert_eq!(parse_daemon_id("+7"), Some(7));
    assert_eq!(parse_daemon_id("4294967296"), None);
    assert_eq!(parse_daemon_id("x1"), None);
    assert_eq!(parse_daemon_id(""), None);
    let mut rs = vec![PortRecord { id: 1, port: None }, PortRecord { id: 2, port: None }];
    report_port(&mut rs, 2, 8080);
    assert_eq!(rs[1], PortRecord { id: 2, port: Some(8080) });
    assert_eq!(rs[0], PortRecord { id: 1, port: None });
    let before = rs.clone();
    report_port(&mut rs, 3, 1);
    assert_eq!(rs, before);
}

#[test]
fn server_only_daemon() {
    assert_eq!(
        spawn("0.0.0.0:8080".to_string(), strings(&["/a=x:1"]), Some("y:2".to_string())),
        strings(&["daemon", "--listen", "0.0.0.0:8080", "--route", "/a=x:1", "--default-target", "y:2"])
    );
    assert_eq!(
        server_command(&strings(&["wsproxy", "daemon", "--listen", "a"])),
        strings(&["wsproxy", "server", "--listen", "a"])
    );
}

#[test]
fn daemon_listing_lines() {
    assert_eq!(listing_line("ID", "PID", "ARGUMENTS"), "ID   PID      ARGUMENTS");
    let d = DaemonInfo {
        id: 1,
        pid: 12345,
        role: DaemonRole::Server,
        args: strings(&["server", "--listen", "0.0.0.0:8080", "--default-target", "127.0.0.1:22"]),
        started_at: 0,
        port: None,
    };
    assert_eq!(listing_row_text(&d), "1    12345    server --listen 0.0.0.0:8080 --default-target 127.0.0.1:22");
    let wide = DaemonInfo { id: 123456, pid: 1234567890, role: DaemonRole::Client, args: vec![], started_at: 0, port: None };
    assert_eq!(listing_row_text(&wide), "123456 1234567890 ");
}
