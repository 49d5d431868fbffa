use wsproxy::addr::{IpAddress, SocketAddress};
use wsproxy::error::ErrorKind;
use wsproxy::router::{after_lookup, after_retry, substitute, Lookup, Router};
use wsproxy::routing::{choose_route, find, position_of, upsert_entry, RouteChoice};
use wsproxy::server::{builder_from_args, tls_mode_of, config_listening_message, server_listening_message, tls_settings, Address, ProxyServer, TlsConfig, TlsMode};
use wsproxy::config::{ServerFileConfig, TlsFileConfig};

fn local(port: u16) -> SocketAddress {
    SocketAddress { ip: IpAddress::V4([127, 0, 0, 1]), port }
}

#[test]
fn router_parameter_substitution() {
    let mut r = Router::new();
    assert!(r.is_empty());
    r.insert("/ssh/{host}", "{host}:22").unwrap();
    r.insert("/files/{*path}", "store:9000/{path}").unwrap();
    r.insert("/db", "127.0.0.1:5432").unwrap();
    assert!(!r.is_empty());

    assert_eq!(r.resolve("/ssh/myserver"), Some("myserver:22".to_string()));
    assert_eq!(r.resolve("/files/a/b/c"), Some("store:9000/a/b/c".to_string()));
    assert_eq!(r.resolve("/db"), Some("127.0.0.1:5432".to_string()));
    assert_eq!(r.resolve("/db/"), Some("127.0.0.1:5432".to_string()));
    assert_eq!(r.resolve("/db//"), Some("127.0.0.1:5432".to_string()));
    assert_eq!(r.resolve("/nothing"), None);
}

#[test]
fn router_refuses_conflicting_pattern() {
    let mut r = Router::new();
    r.insert("/ssh/{host}", "{host}:22").unwrap();
    let e = r.insert("/ssh/{name}", "{name}:22").unwrap_err();
    assert!(matches!(e.kind, ErrorKind::Config(_)));
    assert_eq!(
        e.message(),
        "Configuration error: invalid route pattern '/ssh/{name}': \
         Insertion failed due to conflict with previously registered route: /ssh/{host}"
    );
    assert_eq!(r.resolve("/ssh/box"), Some("box:22".to_string()));
    r.insert("/db", "a:1").unwrap();
    assert!(r.insert("/db", "b:2").is_err());
    assert_eq!(r.resolve("/db"), Some("a:1".to_string()));
    let e = Router::default().insert("/{*rest}/x", "x").unwrap_err();
    assert_eq!(
        e.message(),
        "Configuration error: invalid route pattern '/{*rest}/x': Catch-all parameters are only allowed at the end of a route"
    );
}

#[test]
fn substitute_replaces_both_placeholder_forms() {
    let params = vec![("host".to_string(), "myserver".to_string())];
    assert_eq!(substitute("{host}:22", &params), "myserver:22");
    assert_eq!(substitute("{*host}/{host}", &params), "myserver/myserver");
    assert_eq!(substitute("fixed:1", &params), "fixed:1");
    assert_eq!(substitute("{host}", &vec![]), "{host}");
}

#[test]
fn table_lookup_and_upsert() {
    let mut table: Vec<(String, u16)> = Vec::new();
    upsert_entry(&mut table, "/a", 1);
    upsert_entry(&mut table, "/b", 2);
    upsert_entry(&mut table, "/a", 3);
    assert_eq!(table.len(), 2);
    assert_eq!(find(&table, "/a"), Some(&3));
    assert_eq!(find(&table, "/b"), Some(&2));
    assert_eq!(find(&table, "/c"), None);
    assert_eq!(position_of(&table, "/b"), Some(1));
    assert!(matches!(choose_route(&table, false, "/b/"), RouteChoice::Route(1)));
    assert!(matches!(choose_route(&table, true, "/c"), RouteChoice::Default));
    assert!(matches!(choose_route(&table, false, "/c"), RouteChoice::NoRoute));
}

#[test]
fn builder_routes_and_bind() {
    let server = ProxyServer::builder()
        .route("/ssh", Address::socket(local(22)))
        .route("/db", Address::text("127.0.0.1:5432"))
        .default_target(Address::text("127.0.0.1:80"))
        .bind(local(8080))
        .unwrap();
    assert_eq!(server.listen_addr(), local(8080));
    assert!(server.tls_config().is_none());
    assert!(matches!(server.target_for("/ssh").unwrap(), Address::Socket(a) if a == local(22)));
    assert!(matches!(server.target_for("/ssh/").unwrap(), Address::Socket(a) if a == local(22)));
    assert!(matches!(server.target_for("/db").unwrap(), Address::Text(ref t) if t == "127.0.0.1:5432"));
    assert!(matches!(server.target_for("/other").unwrap(), Address::Text(ref t) if t == "127.0.0.1:80"));
}

#[test]
fn builder_without_targets_fails() {
    let e = ProxyServer::builder().tls_self_signed().bind(local(8080)).unwrap_err();
    assert_eq!(e.message(), "Configuration error: at least one route or a default_target is required");
}

#[test]
fn server_without_default_reports_missing_route() {
    let server = ProxyServer::builder().route("/ssh", Address::socket(local(22))).bind(local(8080)).unwrap();
    let e = server.target_for("/x").unwrap_err();
    assert!(matches!(e.kind, ErrorKind::NoRouteFound(ref p) if p == "/x"));
}

#[test]
fn command_line_builder() {
    let routes = vec!["/ssh=127.0.0.1:22".to_string(), "/db=db:5432=x".to_string()];
    let b = builder_from_args(&routes, Some("127.0.0.1:80"), TlsMode::Files { cert: "c.pem", key: "k.pem" }).unwrap();
    let server = b.bind(local(8443)).unwrap();
    assert!(matches!(server.target_for("/ssh").unwrap(), Address::Text(ref t) if t == "127.0.0.1:22"));
    assert!(matches!(server.target_for("/db").unwrap(), Address::Text(ref t) if t == "db:5432=x"));
    assert!(matches!(server.target_for("/zzz").unwrap(), Address::Text(ref t) if t == "127.0.0.1:80"));
    assert!(matches!(server.tls_config(), Some(TlsConfig::Files { ref cert_path, ref key_path })
        if cert_path == "c.pem" && key_path == "k.pem"));

    let bad = vec!["/ssh=127.0.0.1:22".to_string(), "nonsense".to_string()];
    let e = builder_from_args(&bad, None, TlsMode::Plain).unwrap_err();
    assert_eq!(e.message(), "Configuration error: Invalid route format 'nonsense', expected 'path=target'");

    let s = builder_from_args(&vec![], Some("x:1"), TlsMode::SelfSigned).unwrap().bind(local(1)).unwrap();
    assert!(matches!(s.tls_config(), Some(TlsConfig::SelfSigned)));
}

#[test]
fn listening_messages() {
    assert_eq!(server_listening_message("0.0.0.0:8080", false), "Proxy server listening on 0.0.0.0:8080");
    assert_eq!(server_listening_message("0.0.0.0:8443", true), "Proxy server listening on 0.0.0.0:8443 (WSS)");
    assert_eq!(
        config_listening_message("0.0.0.0:8443", true, "wsproxy.toml"),
        "Proxy server listening on 0.0.0.0:8443 (WSS) - config: wsproxy.toml"
    );
    assert_eq!(
        config_listening_message("0.0.0.0:8080", false, "c.toml"),
        "Proxy server listening on 0.0.0.0:8080 - config: c.toml"
    );
}

#[test]
fn tls_setup_of_config_file() {
    let base = |tls: TlsFileConfig| ServerFileConfig {
        listen: "0.0.0.0:8443".to_string(),
        default_target: Some("127.0.0.1:22".to_string()),
        routes: vec![],
        tls,
    };
    assert!(tls_settings(&base(TlsFileConfig::default())).unwrap().is_none());
    let ss = TlsFileConfig { cert: None, key: None, self_signed: true };
    assert!(matches!(tls_settings(&base(ss)).unwrap(), Some(TlsConfig::SelfSigned)));
    let files = TlsFileConfig { cert: Some("c".to_string()), key: Some("k".to_string()), self_signed: false };
    assert!(matches!(tls_settings(&base(files)).unwrap(), Some(TlsConfig::Files { .. })));
    let half = TlsFileConfig { cert: Some("c".to_string()), key: None, self_signed: false };
    assert_eq!(tls_settings(&base(half)).unwrap_err().message(), "Configuration error: invalid TLS configuration");
}

#[test]
fn refused_insert_changes_nothing() {
    let mut r = Router::new();
    assert!(r.insert("/a", "x").is_ok());
    let e = r.insert("/a", "y").unwrap_err();
    assert!(e.message().starts_with("Configuration error: invalid route pattern '/a': "));
    assert_eq!(r.resolve("/a"), Some("x".to_string()));
    assert!(!r.is_empty());
}

#[test]
fn empty_pattern_route_is_replaced() {
    let mut r = Router::new();
    assert!(r.insert("", "x").is_ok());
    assert!(r.insert("", "y").is_ok());
    assert_eq!(r.resolve(""), Some("y".to_string()));
}

#[test]
fn lookup_decisions() {
    let found = Some(("{host}:22".to_string(), vec![("host".to_string(), "box".to_string())]));
    assert!(matches!(after_lookup(found.clone(), "/ssh/box"), Lookup::Target(ref t) if t == "box:22"));
    assert!(matches!(after_lookup(None, "/db//"), Lookup::Retry(ref n) if n == "/db"));
    assert!(matches!(after_lookup(None, "/db"), Lookup::Miss));
    assert_eq!(after_retry(found), Some("box:22".to_string()));
    assert_eq!(after_retry(None), None);
}

#[test]
fn tls_mode_from_flags() {
    assert!(matches!(tls_mode_of(Some("c.pem"), Some("k.pem"), false), TlsMode::Files { cert: "c.pem", key: "k.pem" }));
    assert!(matches!(tls_mode_of(None, None, true), TlsMode::SelfSigned));
    assert!(matches!(tls_mode_of(None, None, false), TlsMode::Plain));
    assert!(matches!(tls_mode_of(Some("c.pem"), None, false), TlsMode::Plain));
    assert!(matches!(tls_mode_of(Some("c.pem"), Some("k.pem"), true), TlsMode::Plain));
}
