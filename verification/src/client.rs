//! WebSocket proxy client: where a connection goes, how the server's
//! certificate is trusted, and when a shutdown has drained.

use vstd::prelude::*;
use crate::config::opt_str;
use crate::error::{Error, ErrorView};
use crate::text::{decimal, decimal_string, join3, join4};
use tokio_tungstenite::tungstenite::client::IntoClientRequest;

verus! {

/// TLS options for the client.
#[derive(Clone, Debug)]
pub struct TlsOptions {
    /// Skip certificate verification (insecure, for self-signed certificates)
    pub insecure: bool,
    /// Path to CA certificate file (PEM format) for verifying self-signed server certificates
    pub ca_cert_path: Option<String>,
}

impl Default for TlsOptions {
    fn default() -> (r: Self)
        ensures
            !r.insecure,
            r.ca_cert_path is None,
    {
        TlsOptions { insecure: false, ca_cert_path: None }
    }
}

/// How the server's certificate is verified.
#[derive(Clone, Debug)]
pub enum CertificateTrust {
    /// Any certificate is accepted (no verification).
    AcceptAny,
    /// Certificates are verified against the CA certificates of this file.
    CustomCa(String),
    /// Certificates are verified against the bundled web root certificates.
    SystemRoots,
}

/// Chooses how to verify the server: insecure mode accepts anything, else a
/// custom CA file if one is given, else the bundled root certificates.
pub fn certificate_trust(options: &TlsOptions) -> (r: CertificateTrust)
    ensures
        options.insecure ==> r is AcceptAny,
        !options.insecure && options.ca_cert_path is Some ==> (r matches CertificateTrust::CustomCa(p) && p@
            == options.ca_cert_path->Some_0@),
        !options.insecure && options.ca_cert_path is None ==> r is SystemRoots,
{
    if options.insecure {
        CertificateTrust::AcceptAny
    } else {
        match &options.ca_cert_path {
            Some(p) => CertificateTrust::CustomCa(p.clone()),
            None => CertificateTrust::SystemRoots,
        }
    }
}

/// The scheme, host and port of a WebSocket URL.
pub struct UriParts {
    pub scheme: Option<String>,
    pub host: Option<String>,
    pub port: Option<u16>,
}

/// The scheme, host and port of the request URI that
/// `IntoClientRequest::into_client_request` makes of a URL, or the message
/// of the error when it refuses the URL.
pub uninterp spec fn ws_request_uri(url: Seq<char>) -> core::result::Result<
    (Option<Seq<char>>, Option<Seq<char>>, Option<u16>),
    Seq<char>,
>;

/// `IntoClientRequest::into_client_request` on a URL, keeping the request
/// URI's `scheme_str`, `host` and `port_u16`; an error is kept as its message.
#[verifier::external_body]
fn ws_request_parts(url: &str) -> (r: Result<UriParts, String>)
    ensures
        match r {
            Ok(p) => ws_request_uri(url@) == Ok::<_, Seq<char>>((opt_str(p.scheme), opt_str(p.host), p.port)),
            Err(m) => ws_request_uri(url@) == Err::<(Option<Seq<char>>, Option<Seq<char>>, Option<u16>), _>(m@),
        },
{
    match url.into_client_request() {
        Ok(req) => Ok(UriParts {
            scheme: req.uri().scheme_str().map(|s| s.to_string()),
            host: req.uri().host().map(|h| h.to_string()),
            port: req.uri().port_u16(),
        }),
        Err(e) => Err(e.to_string()),
    }
}

/// Where a WebSocket connection is made.
#[derive(Clone, Debug)]
pub struct ConnectTarget {
    /// `host:port` to open a TCP connection to.
    pub addr: String,
    /// The host, for TLS server name verification.
    pub host: String,
    /// Whether the connection uses TLS (`wss`).
    pub tls: bool,
}

/// The port of a URL: the one it gives, else 443 for `wss` and 80 otherwise.
pub open spec fn effective_port(scheme: Seq<char>, port: Option<u16>) -> u16 {
    match port {
        Some(p) => p,
        None => if scheme == "wss"@ {
            443
        } else {
            80
        },
    }
}

/// A URL's own port is the port connected to, whatever the scheme; without
/// one, `wss` connects to 443 and any other scheme to 80.
pub proof fn lemma_effective_port()
    ensures
        forall|s: Seq<char>, p: u16| #[trigger] effective_port(s, Some(p)) == p,
        forall|s: Seq<char>| #[trigger] effective_port(s, None) == (if s == "wss"@ {
            443u16
        } else {
            80u16
        }),
{
}

/// The scheme of a URL, `ws` when it gives none.
pub open spec fn effective_scheme(scheme: Option<Seq<char>>) -> Seq<char> {
    match scheme {
        Some(s) => s,
        None => "ws"@,
    }
}

/// Decides where a connection to the WebSocket server URL goes.
pub fn connect_target(server_url: &str) -> (r: Result<ConnectTarget, Error>)
    ensures
        match ws_request_uri(server_url@) {
            Err(m) => r matches Err(e) && e@ == ErrorView::WebSocket(m),
            Ok((scheme, host, port)) => match host {
                None => r matches Err(e) && e@ == ErrorView::Config("missing host in URL"@),
                Some(h) => r matches Ok(t) && t.host@ == h && t.tls == (effective_scheme(scheme) == "wss"@)
                    && t.addr@ == h + ":"@ + decimal(effective_port(effective_scheme(scheme), port) as nat),
            },
        },
        ws_request_uri(server_url@) matches Ok((_, Some(h), Some(p))) ==> (r matches Ok(t) && t.addr@ == h + ":"@
            + decimal(p as nat)),
        ws_request_uri(server_url@) matches Ok((Some(s), Some(h), None)) ==> (r matches Ok(t) && t.addr@ == h
            + ":"@ + decimal((if s == "wss"@ { 443nat } else { 80nat }))),
{
    proof {
        lemma_effective_port();
    }
    let parts = match ws_request_parts(server_url) {
        Ok(p) => p,
        Err(m) => {
            return Err(Error::websocket(m.as_str()));
        },
    };
    let scheme = match &parts.scheme {
        Some(s) => s.clone(),
        None => "ws".to_owned(),
    };
    let host = match &parts.host {
        Some(h) => h.clone(),
        None => {
            return Err(Error::config("missing host in URL"));
        },
    };
    let wss = "wss".to_owned();
    let tls = scheme == wss;
    let port: u16 = match parts.port {
        Some(p) => p,
        None => if tls {
            443
        } else {
            80
        },
    };
    let port_text = decimal_string(port as u64);
    let addr = join3(host.as_str(), ":", port_text.as_str());
    Ok(ConnectTarget { addr, host, tls })
}

/// The message the client prints once it listens; it contains
/// `listening on`, which is what a daemon waits for.
pub open spec fn client_listening_text(local_addr: Seq<char>, server_url: Seq<char>) -> Seq<char> {
    "Proxy client listening on "@ + local_addr + ", forwarding to "@ + server_url
}

/// The message printed once the client listens.
pub fn client_listening_message(local_addr: &str, server_url: &str) -> (r: String)
    ensures
        r@ == client_listening_text(local_addr@, server_url@),
{
    join4("Proxy client listening on ", local_addr, ", forwarding to ", server_url)
}

/// What a shutdown does next while connections drain.
#[derive(Clone, Copy, Debug, PartialEq, Eq)]
pub enum DrainStep {
    /// No connection is left: shut down.
    Drained,
    /// The drain timeout has passed with this many connections left.
    TimedOut(usize),
    /// Wait and look again.
    Wait,
}

/// Decides a step of draining: done when no connection is active, given up
/// once the time waited reaches the timeout, else wait.
pub fn drain_step(active: usize, waited_nanos: u128, timeout_nanos: u128) -> (r: DrainStep)
    ensures
        active == 0 ==> r == DrainStep::Drained,
        active != 0 && waited_nanos >= timeout_nanos ==> r == DrainStep::TimedOut(active),
        active != 0 && waited_nanos < timeout_nanos ==> r == DrainStep::Wait,
{
    if active == 0 {
        DrainStep::Drained
    } else if waited_nanos >= timeout_nanos {
        DrainStep::TimedOut(active)
    } else {
        DrainStep::Wait
    }
}

} // verus!
