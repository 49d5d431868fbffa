use wsproxy::addr::{IpAddress, Resolutions, SocketAddress};
use wsproxy::config::{
    classify_reload, concerns_config, reload_step, ConfigChange, ReloadStep, ResolvedConfig,
    ServerFileConfig, TlsFileConfig,
};
use wsproxy::error::ErrorKind;

fn v4(a: u8, b: u8, c: u8, d: u8, port: u16) -> SocketAddress {
    SocketAddress { ip: IpAddress::V4([a, b, c, d]), port }
}

/// The outcomes that resolving the address texts of these tests gives.
fn resolutions() -> Resolutions {
    let mut r = Resolutions::new();
    r.record("0.0.0.0:8080", Ok(v4(0, 0, 0, 0, 8080)));
    r.record("0.0.0.0:8443", Ok(v4(0, 0, 0, 0, 8443)));
    r.record("0.0.0.0:9090", Ok(v4(0, 0, 0, 0, 9090)));
    r.record("127.0.0.1:22", Ok(v4(127, 0, 0, 1, 22)));
    r.record("127.0.0.1:23", Ok(v4(127, 0, 0, 1, 23)));
    r.record("127.0.0.1:5432", Ok(v4(127, 0, 0, 1, 5432)));
    r.record("invalid", Err("invalid socket address".to_string()));
    r
}

fn tls_none() -> TlsFileConfig {
    TlsFileConfig::default()
}

fn config(listen: &str, default_target: Option<&str>, routes: &[(&str, &str)], tls: TlsFileConfig) -> ServerFileConfig {
    ServerFileConfig {
        listen: listen.to_string(),
        default_target: default_target.map(|s| s.to_string()),
        routes: routes.iter().map(|(p, t)| (p.to_string(), t.to_string())).collect(),
        tls,
    }
}

/// Builds a configuration as parsing gives it, and validates it.
fn parse(
    listen: &str,
    default_target: Option<&str>,
    routes: &[(&str, &str)],
    tls: TlsFileConfig,
) -> Result<ServerFileConfig, wsproxy::Error> {
    let c = config(listen, default_target, routes, tls);
    c.validate(&resolutions())?;
    Ok(c)
}

#[test]
fn test_parse_minimal_config() {
    let config = parse("0.0.0.0:8080", Some("127.0.0.1:22"), &[], tls_none()).unwrap();

    assert_eq!(config.listen, "0.0.0.0:8080");
    assert_eq!(config.default_target, Some("127.0.0.1:22".to_string()));
    assert!(config.routes.is_empty());
}

#[test]
fn test_parse_full_config() {
    let tls = TlsFileConfig { cert: Some("cert.pem".to_string()), key: Some("key.pem".to_string()), self_signed: false };
    let config = parse(
        "0.0.0.0:8443",
        Some("127.0.0.1:22"),
        &[("/ssh", "127.0.0.1:22"), ("/db", "127.0.0.1:5432")],
        tls,
    )
    .unwrap();

    assert_eq!(config.listen, "0.0.0.0:8443");
    assert_eq!(config.route("/ssh"), Some(&"127.0.0.1:22".to_string()));
    assert_eq!(config.route("/db"), Some(&"127.0.0.1:5432".to_string()));
    assert!(config.has_tls());
}

#[test]
fn test_parse_self_signed_tls() {
    let tls = TlsFileConfig { cert: None, key: None, self_signed: true };
    let config = parse("0.0.0.0:8443", Some("127.0.0.1:22"), &[], tls).unwrap();

    assert!(config.tls.self_signed);
    assert!(config.has_tls());
}

#[test]
fn test_invalid_listen_address() {
    let result = parse("invalid", Some("127.0.0.1:22"), &[], tls_none());
    assert!(result.is_err());
}

#[test]
fn test_no_routes_or_default() {
    let result = parse("0.0.0.0:8080", None, &[], tls_none());
    assert!(result.is_err());
}

#[test]
fn test_conflicting_tls_config() {
    let tls = TlsFileConfig { cert: Some("cert.pem".to_string()), key: Some("key.pem".to_string()), self_signed: true };
    let result = parse("0.0.0.0:8080", Some("127.0.0.1:22"), &[], tls);
    assert!(result.is_err());
}

#[test]
fn test_only_routing_changed() {
    let config1 = parse("0.0.0.0:8080", Some("127.0.0.1:22"), &[], tls_none()).unwrap();
    let config2 = parse("0.0.0.0:8080", Some("127.0.0.1:23"), &[], tls_none()).unwrap();
    let config3 = parse("0.0.0.0:9090", Some("127.0.0.1:22"), &[], tls_none()).unwrap();

    assert!(config1.only_routing_changed(&config2));
    assert!(!config1.only_routing_changed(&config3));
}

fn config_message(r: Result<ServerFileConfig, wsproxy::Error>) -> String {
    match r {
        Ok(_) => panic!("expected an error"),
        Err(e) => {
            assert!(matches!(e.kind, ErrorKind::Config(_)));
            e.message()
        }
    }
}

#[test]
fn validation_error_messages() {
    assert_eq!(
        config_message(parse("invalid", Some("127.0.0.1:22"), &[], tls_none())),
        "Configuration error: invalid listen address 'invalid': invalid socket address"
    );
    assert_eq!(
        config_message(parse("0.0.0.0:8080", Some("nowhere:1"), &[], tls_none())),
        "Configuration error: invalid default_target 'nowhere:1': could not resolve address"
    );
    assert_eq!(
        config_message(parse("0.0.0.0:8080", None, &[("/ok", "127.0.0.1:22"), ("/x", "invalid")], tls_none())),
        "Configuration error: invalid target 'invalid' for route '/x': invalid socket address"
    );
    let both = TlsFileConfig { cert: Some("c".to_string()), key: None, self_signed: true };
    assert_eq!(
        config_message(parse("0.0.0.0:8080", Some("127.0.0.1:22"), &[], both)),
        "Configuration error: cannot use self_signed with cert/key files"
    );
    let half = TlsFileConfig { cert: Some("c".to_string()), key: None, self_signed: false };
    assert_eq!(
        config_message(parse("0.0.0.0:8080", Some("127.0.0.1:22"), &[], half)),
        "Configuration error: both cert and key must be provided"
    );
    assert_eq!(
        config_message(parse("0.0.0.0:8080", None, &[], tls_none())),
        "Configuration error: at least one route or default_target is required"
    );
}

#[test]
fn routes_alone_are_enough() {
    assert!(parse("0.0.0.0:8080", None, &[("/ssh", "127.0.0.1:22")], tls_none()).is_ok());
}

#[test]
fn tls_flag_and_routing_change() {
    let plain = config("0.0.0.0:8080", Some("127.0.0.1:22"), &[], tls_none());
    assert!(!plain.has_tls());
    let files = TlsFileConfig { cert: Some("cert.pem".to_string()), key: Some("key.pem".to_string()), self_signed: false };
    let with_tls = config("0.0.0.0:8080", Some("127.0.0.1:22"), &[], files);
    assert!(with_tls.has_tls());
    assert!(!plain.only_routing_changed(&with_tls));
    let more_routes = config("0.0.0.0:8080", None, &[("/db", "127.0.0.1:5432")], tls_none());
    assert!(plain.only_routing_changed(&more_routes));
}

#[test]
fn addresses_in_order() {
    let c = config("0.0.0.0:8080", Some("127.0.0.1:22"), &[("/db", "127.0.0.1:5432")], tls_none());
    assert_eq!(c.addresses(), vec!["0.0.0.0:8080", "127.0.0.1:22", "127.0.0.1:5432"]);
}

#[test]
fn resolved_config_routes() {
    let c = config(
        "0.0.0.0:8443",
        Some("127.0.0.1:22"),
        &[("/ssh", "127.0.0.1:22"), ("/db", "127.0.0.1:5432")],
        tls_none(),
    );
    let rc = ResolvedConfig::from_file_config(&c, &resolutions()).unwrap();
    assert_eq!(rc.listen_addr, v4(0, 0, 0, 0, 8443));
    assert_eq!(rc.target_for("/db").unwrap(), v4(127, 0, 0, 1, 5432));
    assert_eq!(rc.target_for("/db/").unwrap(), v4(127, 0, 0, 1, 5432));
    assert_eq!(rc.target_for("/other").unwrap(), v4(127, 0, 0, 1, 22));

    let no_default = config("0.0.0.0:8443", None, &[("/ssh", "127.0.0.1:22")], tls_none());
    let rc = ResolvedConfig::from_file_config(&no_default, &resolutions()).unwrap();
    let e = rc.target_for("/nope").unwrap_err();
    assert!(matches!(e.kind, ErrorKind::NoRouteFound(ref p) if p == "/nope"));
    assert_eq!(e.message(), "No route found for path: /nope");
}

#[test]
fn resolved_config_errors() {
    let c = config("invalid", Some("127.0.0.1:22"), &[], tls_none());
    let e = ResolvedConfig::from_file_config(&c, &resolutions()).unwrap_err();
    assert_eq!(e.message(), "Configuration error: invalid listen address: invalid socket address");
    let c = config("0.0.0.0:8080", Some("invalid"), &[], tls_none());
    let e = ResolvedConfig::from_file_config(&c, &resolutions()).unwrap_err();
    assert_eq!(e.message(), "Configuration error: invalid default_target: invalid socket address");
    let c = config("0.0.0.0:8080", None, &[("/x", "invalid")], tls_none());
    let e = ResolvedConfig::from_file_config(&c, &resolutions()).unwrap_err();
    assert_eq!(e.message(), "Configuration error: invalid target for '/x': invalid socket address");
}

#[test]
fn reload_classification() {
    let mut current = config("0.0.0.0:8080", Some("127.0.0.1:22"), &[], tls_none());
    let routing = config("0.0.0.0:8080", Some("127.0.0.1:23"), &[], tls_none());
    match classify_reload(&mut current, Ok(routing)) {
        ConfigChange::RoutingOnly(c) => assert_eq!(c.default_target, Some("127.0.0.1:23".to_string())),
        other => panic!("unexpected {:?}", other),
    }
    assert_eq!(current.default_target, Some("127.0.0.1:23".to_string()));

    let moved = config("0.0.0.0:9090", Some("127.0.0.1:23"), &[], tls_none());
    assert!(matches!(classify_reload(&mut current, Ok(moved)), ConfigChange::FullRestart(_)));
    assert_eq!(current.listen, "0.0.0.0:9090");

    let failed = classify_reload(&mut current, Err(wsproxy::Error::config("invalid config: oops")));
    match failed {
        ConfigChange::Error(m) => assert_eq!(m, "Configuration error: invalid config: oops"),
        other => panic!("unexpected {:?}", other),
    }
    assert_eq!(current.listen, "0.0.0.0:9090");
}

#[test]
fn reload_steps() {
    assert!(matches!(reload_step(None, &resolutions()), ReloadStep::Stop));
    let c = config("0.0.0.0:8080", Some("127.0.0.1:22"), &[], tls_none());
    assert!(matches!(reload_step(Some(ConfigChange::FullRestart(c.clone())), &resolutions()), ReloadStep::Restart));
    match reload_step(Some(ConfigChange::Error("bad".to_string())), &resolutions()) {
        ReloadStep::Report(m) => assert_eq!(m, "Config reload error: bad"),
        other => panic!("unexpected {:?}", other),
    }
    match reload_step(Some(ConfigChange::RoutingOnly(c)), &resolutions()) {
        ReloadStep::Replace(rc) => assert_eq!(rc.target_for("/").unwrap(), v4(127, 0, 0, 1, 22)),
        other => panic!("unexpected {:?}", other),
    }
    let bad = config("0.0.0.0:8080", Some("nowhere:1"), &[], tls_none());
    match reload_step(Some(ConfigChange::RoutingOnly(bad)), &resolutions()) {
        ReloadStep::Report(m) => assert_eq!(
            m,
            "Failed to apply config: Configuration error: invalid default_target: could not resolve address"
        ),
        other => panic!("unexpected {:?}", other),
    }
}

#[test]
fn config_file_events() {
    let paths = vec!["/etc/wsproxy/other.toml".to_string(), "/etc/wsproxy/config.toml".to_string()];
    assert!(concerns_config(true, &paths, "config.toml"));
    assert!(concerns_config(true, &paths, "/etc/wsproxy/config.toml"));
    assert!(!concerns_config(false, &paths, "config.toml"));
    assert!(!concerns_config(true, &paths, "onfig.toml"));
    assert!(!concerns_config(true, &vec![], "config.toml"));
}

#[test]
fn reload_sequence_keeps_last_loaded() {
    let mut current = config("0.0.0.0:8080", Some("127.0.0.1:22"), &[], tls_none());
    let a = config("0.0.0.0:8080", Some("127.0.0.1:23"), &[], tls_none());
    assert!(matches!(classify_reload(&mut current, Ok(a)), ConfigChange::RoutingOnly(_)));
    assert!(matches!(classify_reload(&mut current, Err(wsproxy::Error::config("x"))), ConfigChange::Error(_)));
    let b = config("0.0.0.0:9090", Some("127.0.0.1:23"), &[], tls_none());
    assert!(matches!(classify_reload(&mut current, Ok(b)), ConfigChange::FullRestart(_)));
    assert_eq!(current.listen, "0.0.0.0:9090");
    assert_eq!(current.default_target, Some("127.0.0.1:23".to_string()));
}
