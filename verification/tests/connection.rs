use wsproxy::client::{
    certificate_trust, client_listening_message, connect_target, drain_step, CertificateTrust, DrainStep, TlsOptions,
};
use wsproxy::error::{Error, ErrorKind};
use wsproxy::relay::{stream_to_ws, ws_to_stream, StreamStep, WsEvent, WsMessage, WsStep};
use wsproxy::text::{decimal_string, join3, parse_u32_exec, replace_all_chars, trim_end_chars};
use wsproxy::tls::{
    generate_self_signed_cert, load_ca_certificates, load_tls_material, self_signed_material, self_signed_names,
    self_signed_request, step_error, ExtendedKeyUsage, KeyKind, KeyUsage, SelfSignedStep,
};

#[test]
fn connect_targets() {
    let t = connect_target("ws://example.com/ssh").unwrap();
    assert_eq!(t.addr, "example.com:80");
    assert_eq!(t.host, "example.com");
    assert!(!t.tls);
    let t = connect_target("wss://example.com/ssh").unwrap();
    assert_eq!(t.addr, "example.com:443");
    assert!(t.tls);
    let t = connect_target("wss://127.0.0.1:8443").unwrap();
    assert_eq!(t.addr, "127.0.0.1:8443");
    assert_eq!(t.host, "127.0.0.1");
    let e = connect_target("not a url").unwrap_err();
    assert!(matches!(e.kind, ErrorKind::WebSocket(_)));
    assert!(e.message().starts_with("WebSocket error: "));
}

#[test]
fn certificate_trust_choice() {
    let insecure = TlsOptions { insecure: true, ca_cert_path: Some("ca.pem".to_string()) };
    assert!(matches!(certificate_trust(&insecure), CertificateTrust::AcceptAny));
    let ca = TlsOptions { insecure: false, ca_cert_path: Some("ca.pem".to_string()) };
    assert!(matches!(certificate_trust(&ca), CertificateTrust::CustomCa(ref p) if p == "ca.pem"));
    assert!(matches!(certificate_trust(&TlsOptions::default()), CertificateTrust::SystemRoots));
}

#[test]
fn client_message_and_drain() {
    assert_eq!(
        client_listening_message("127.0.0.1:2222", "ws://h/ssh"),
        "Proxy client listening on 127.0.0.1:2222, forwarding to ws://h/ssh"
    );
    assert_eq!(drain_step(0, 99, 10), DrainStep::Drained);
    assert_eq!(drain_step(3, 10, 10), DrainStep::TimedOut(3));
    assert_eq!(drain_step(3, 9, 10), DrainStep::Wait);
}

#[test]
fn websocket_to_stream() {
    assert!(matches!(ws_to_stream(WsEvent::Message(WsMessage::Binary(vec![1, 2]))), WsStep::Write(ref b) if b == &vec![1, 2]));
    assert!(matches!(ws_to_stream(WsEvent::Message(WsMessage::Text("hé".to_string()))), WsStep::Write(ref b) if b == &"hé".as_bytes().to_vec()));
    assert!(matches!(ws_to_stream(WsEvent::Message(WsMessage::Close)), WsStep::Finish));
    assert!(matches!(ws_to_stream(WsEvent::Message(WsMessage::Ping(vec![9]))), WsStep::Skip));
    assert!(matches!(ws_to_stream(WsEvent::Message(WsMessage::Pong(vec![]))), WsStep::Skip));
    assert!(matches!(ws_to_stream(WsEvent::Message(WsMessage::Frame)), WsStep::Skip));
    assert!(matches!(ws_to_stream(WsEvent::Ended), WsStep::Finish));
    match ws_to_stream(WsEvent::Failed("reset".to_string())) {
        WsStep::Fail(e) => assert_eq!(e.message(), "WebSocket error: reset"),
        other => panic!("unexpected {:?}", other),
    }
}

#[test]
fn stream_to_websocket() {
    let buf = [7u8, 8, 9, 10];
    assert!(matches!(stream_to_ws(&buf, 3, false), StreamStep::Send(ref d) if d == &vec![7, 8, 9]));
    assert!(matches!(stream_to_ws(&buf, 0, false), StreamStep::Finish));
    assert!(matches!(stream_to_ws(&buf, 0, true), StreamStep::CloseAndFinish));
}

#[test]
fn error_messages() {
    assert_eq!(Error::io("broken pipe").message(), "I/O error: broken pipe");
    assert_eq!(Error::websocket("closed").message(), "WebSocket error: closed");
    assert_eq!(Error::no_route_found("/x").message(), "No route found for path: /x");
    assert_eq!(Error::config("bad").message(), "Configuration error: bad");
}

#[test]
fn decimal_and_parse() {
    assert_eq!(decimal_string(0), "0");
    assert_eq!(decimal_string(8080), "8080");
    assert_eq!(decimal_string(u64::MAX), "18446744073709551615");
    for n in [0u32, 1, 9, 10, 65535, u32::MAX] {
        assert_eq!(parse_u32_exec(&decimal_string(n as u64)), Some(n));
    }
    assert_eq!(parse_u32_exec("12a"), None);
    assert_eq!(parse_u32_exec("+"), None);
    assert_eq!(join3("a", "b", "c"), "abc");
}

#[test]
fn char_helpers() {
    let v: Vec<char> = "/db///".chars().collect();
    assert_eq!(trim_end_chars(&v, '/').iter().collect::<String>(), "/db");
    let t: Vec<char> = "{h}-{h}".chars().collect();
    let p: Vec<char> = "{h}".chars().collect();
    let r: Vec<char> = "x".chars().collect();
    assert_eq!(replace_all_chars(&t, &p, &r).iter().collect::<String>(), "x-x");
}

#[test]
fn tls_material_from_pem() {
    let ck = rcgen::generate_simple_self_signed(vec!["localhost".to_string()]).unwrap();
    let cert_pem = ck.cert.pem();
    let key_pem = ck.key_pair.serialize_pem();
    let m = load_tls_material(cert_pem.as_bytes(), key_pem.as_bytes()).unwrap();
    assert_eq!(m.certs.len(), 1);
    assert_eq!(m.certs[0], ck.cert.der().to_vec());
    assert_eq!(m.key, ck.key_pair.serialize_der());
    assert_eq!(m.key_kind, KeyKind::Pkcs8);
    // The key comes from the key file, not from the certificate file.
    let e = load_tls_material(key_pem.as_bytes(), cert_pem.as_bytes()).err().unwrap();
    assert_eq!(e.message(), "Configuration error: no private key found in key file");

    let e = load_tls_material(cert_pem.as_bytes(), b"no key here").err().unwrap();
    assert_eq!(e.message(), "Configuration error: no private key found in key file");
    let broken = "-----BEGIN CERTIFICATE-----\n%%%\n-----END CERTIFICATE-----\n";
    let e = load_tls_material(broken.as_bytes(), key_pem.as_bytes()).err().unwrap();
    assert!(e.message().starts_with("Configuration error: failed to parse TLS certificate: "));
    let e = load_ca_certificates(broken.as_bytes()).unwrap_err();
    assert!(e.message().starts_with("Configuration error: failed to parse CA certificate: "));

    let cas = load_ca_certificates(cert_pem.as_bytes()).unwrap();
    assert_eq!(cas, vec![ck.cert.der().to_vec()]);
    assert!(load_ca_certificates(b"").unwrap().is_empty());
}

#[test]
fn self_signed_certificate() {
    assert_eq!(self_signed_names(), vec!["localhost".to_string(), "127.0.0.1".to_string()]);
    let req = self_signed_request();
    assert_eq!(req.common_name, "localhost");
    assert_eq!(req.subject_alt_names, vec!["localhost".to_string(), "127.0.0.1".to_string()]);
    assert_eq!(req.key_usages, vec![KeyUsage::DigitalSignature]);
    assert_eq!(req.extended_key_usages, vec![ExtendedKeyUsage::ServerAuth]);
    let m = generate_self_signed_cert().unwrap();
    assert_eq!(m.certs.len(), 1);
    assert!(!m.certs[0].is_empty());
    assert!(tokio_rustls::rustls::pki_types::PrivateKeyDer::try_from(m.key.as_slice()).is_ok());
    assert_eq!(m.key_kind, KeyKind::Pkcs8);
    // The certificate carries the public key of the returned private key,
    // the name `localhost` and the address 127.0.0.1.
    let pair = rcgen::KeyPair::try_from(m.key.as_slice()).unwrap();
    let spki = pair.public_key_der();
    let cert = &m.certs[0];
    let holds = |part: &[u8]| cert.windows(part.len()).any(|w| w == part);
    assert!(holds(&spki));
    assert!(holds(b"localhost"));
    assert!(holds(&[127, 0, 0, 1]));
    let mut bad = self_signed_request();
    bad.subject_alt_names = vec!["not a name\u{7f}é".to_string()];
    let e = self_signed_material(&bad).err().unwrap();
    assert!(e.message().starts_with("Configuration error: failed to create SAN: "));
}

#[test]
fn self_signed_step_errors() {
    assert_eq!(step_error(SelfSignedStep::San, "x").message(), "Configuration error: failed to create SAN: x");
    assert_eq!(step_error(SelfSignedStep::KeyPair, "x").message(), "Configuration error: failed to generate key pair: x");
    assert_eq!(
        step_error(SelfSignedStep::Certificate, "x").message(),
        "Configuration error: failed to generate self-signed certificate: x"
    );
    assert_eq!(
        step_error(SelfSignedStep::PrivateKey, "x").message(),
        "Configuration error: failed to serialize private key: x"
    );
}
