//! WebSocket proxy server: configuration of routes, targets and TLS, and the
//! choice of target for each connection.

use vstd::prelude::*;
use crate::addr::SocketAddress;
use crate::config::{opt_str, ServerFileConfig};
use crate::error::{Error, ErrorView};
use crate::routing::{
    choose_route, keys_distinct, lemma_upsert_distinct, select_target, table_view, upsert, upsert_entry, first_with_key,
    RouteChoice,
};
use crate::text::{chars_of, join2, join3, split_once, split_once_chars, string_of};

verus! {

/// A target address: text to resolve when a connection is made (so that
/// DNS changes are picked up without a restart), or a socket address.
#[derive(Clone, Debug)]
pub enum Address {
    Text(String),
    Socket(SocketAddress),
}

/// The mathematical value of an [`Address`].
pub enum AddressView {
    Text(Seq<char>),
    Socket(SocketAddress),
}

impl View for Address {
    type V = AddressView;

    open spec fn view(&self) -> AddressView {
        match self {
            Address::Text(s) => AddressView::Text(s@),
            Address::Socket(a) => AddressView::Socket(*a),
        }
    }
}

impl Address {
    /// An address given as text, resolved when it is used.
    pub fn text(s: &str) -> (r: Address)
        ensures
            r@ == AddressView::Text(s@),
    {
        Address::Text(s.to_owned())
    }

    /// An address given as a socket address.
    pub fn socket(a: SocketAddress) -> (r: Address)
        ensures
            r@ == AddressView::Socket(a),
    {
        Address::Socket(a)
    }

    /// A copy with the same value.
    pub fn copy(&self) -> (r: Address)
        ensures
            r@ == self@,
    {
        match self {
            Address::Text(s) => Address::Text(s.clone()),
            Address::Socket(a) => Address::Socket(*a),
        }
    }
}

/// TLS configuration for the server.
#[derive(Clone, Debug)]
pub enum TlsConfig {
    /// Load certificate and key from files
    Files {
        /// Path to the certificate file (PEM format)
        cert_path: String,
        /// Path to the private key file (PEM format)
        key_path: String,
    },
    /// Generate a self-signed certificate
    SelfSigned,
}

/// The mathematical value of a [`TlsConfig`].
pub enum TlsConfigView {
    Files { cert_path: Seq<char>, key_path: Seq<char> },
    SelfSigned,
}

impl View for TlsConfig {
    type V = TlsConfigView;

    open spec fn view(&self) -> TlsConfigView {
        match self {
            TlsConfig::Files { cert_path, key_path } => TlsConfigView::Files {
                cert_path: cert_path@,
                key_path: key_path@,
            },
            TlsConfig::SelfSigned => TlsConfigView::SelfSigned,
        }
    }
}

/// The view of an optional TLS configuration.
pub open spec fn opt_tls(t: Option<TlsConfig>) -> Option<TlsConfigView> {
    match t {
        Some(c) => Some(c@),
        None => None,
    }
}

/// The view of an optional address.
pub open spec fn opt_addr(a: Option<Address>) -> Option<AddressView> {
    match a {
        Some(x) => Some(x@),
        None => None,
    }
}

/// TLS mode of the server's command line.
#[derive(Clone, Debug)]
pub enum TlsMode<'a> {
    /// No TLS (plain WebSocket)
    Plain,
    /// Load certificate and key from files
    Files { cert: &'a str, key: &'a str },
    /// Generate a self-signed certificate
    SelfSigned,
}

/// A table of routes with its values taken by their views.
pub open spec fn route_table(entries: Seq<(String, Address)>) -> Seq<(Seq<char>, AddressView)> {
    entries.map_values(|e: (String, Address)| (e.0@, e.1@))
}

proof fn lemma_route_table_upsert(entries: Seq<(String, Address)>, key: Seq<char>, value: Address, new: Seq<(String, Address)>)
    requires
        table_view(new) == upsert(table_view(entries), key, value),
    ensures
        route_table(new) == upsert(route_table(entries), key, value@),
{
    let t = table_view(entries);
    let r = route_table(entries);
    assert forall|i: int| first_with_key(t, key, i) <==> first_with_key(r, key, i) by {
        if 0 <= i < t.len() {
            assert(t[i].0 == r[i].0);
            assert forall|j: int| 0 <= j < i implies t[j].0 == r[j].0 by {}
        }
    }
    if exists|i: int| first_with_key(t, key, i) {
        let i = choose|i: int| first_with_key(t, key, i);
        let k = choose|k: int| first_with_key(r, key, k);
        assert(i == k) by {
            if i < k {
                assert(r[i].0 == key);
            } else if k < i {
                assert(t[k].0 == key);
            }
        }
        assert(table_view(new).len() == new.len());
        assert(route_table(new) =~= r.update(i, (key, value@))) by {
            assert forall|j: int| 0 <= j < new.len() implies #[trigger] route_table(new)[j] == r.update(i, (key, value@))[j] by {
                assert(table_view(new)[j] == t.update(i, (key, value))[j]);
                assert(table_view(new)[j] == (new[j].0@, new[j].1));
                assert(route_table(new)[j] == (new[j].0@, new[j].1@));
                if j != i {
                    assert(t[j] == (entries[j].0@, entries[j].1));
                    assert(r[j] == (entries[j].0@, entries[j].1@));
                }
            }
        }
    } else {
        assert(table_view(new).len() == new.len());
        assert(route_table(new) =~= r.push((key, value@))) by {
            assert forall|j: int| 0 <= j < new.len() implies #[trigger] route_table(new)[j] == r.push((key, value@))[j] by {
                assert(table_view(new)[j] == t.push((key, value))[j]);
                assert(table_view(new)[j] == (new[j].0@, new[j].1));
                assert(route_table(new)[j] == (new[j].0@, new[j].1@));
                if j < entries.len() {
                    assert(t[j] == (entries[j].0@, entries[j].1));
                    assert(r[j] == (entries[j].0@, entries[j].1@));
                }
            }
        }
    }
}

/// Builder for creating a [`ProxyServer`].
#[derive(Clone, Debug)]
pub struct ProxyServerBuilder {
    routes: Vec<(String, Address)>,
    default_target: Option<Address>,
    tls_config: Option<TlsConfig>,
}

/// The mathematical value of a [`ProxyServerBuilder`] or a [`ProxyServer`]'s
/// routing.
pub struct BuilderView {
    pub routes: Seq<(Seq<char>, AddressView)>,
    pub default_target: Option<AddressView>,
    pub tls: Option<TlsConfigView>,
}

impl View for ProxyServerBuilder {
    type V = BuilderView;

    closed spec fn view(&self) -> BuilderView {
        BuilderView {
            routes: route_table(self.routes@),
            default_target: opt_addr(self.default_target),
            tls: opt_tls(self.tls_config),
        }
    }
}

/// The message the server prints once it listens; it contains
/// `listening on`, which is what a daemon waits for.
pub open spec fn server_listening_text(listen: Seq<char>, tls: bool) -> Seq<char> {
    if tls {
        "Proxy server listening on "@ + listen + " (WSS)"@
    } else {
        "Proxy server listening on "@ + listen
    }
}

/// The message printed once the server listens.
pub fn server_listening_message(listen: &str, tls: bool) -> (r: String)
    ensures
        r@ == server_listening_text(listen@, tls),
{
    if tls {
        join3("Proxy server listening on ", listen, " (WSS)")
    } else {
        join2("Proxy server listening on ", listen)
    }
}

/// The message the server prints once it listens with a configuration file.
pub open spec fn config_listening_text(listen: Seq<char>, tls: bool, config_path: Seq<char>) -> Seq<char> {
    server_listening_text(listen, tls) + " - config: "@ + config_path
}

/// The message printed once the server listens with a configuration file.
pub fn config_listening_message(listen: &str, tls: bool, config_path: &str) -> (r: String)
    ensures
        r@ == config_listening_text(listen@, tls, config_path@),
{
    let m = server_listening_message(listen, tls);
    join3(m.as_str(), " - config: ", config_path)
}

/// The message of a malformed `path=target` route argument.
pub open spec fn route_format_text(r: Seq<char>) -> Seq<char> {
    "Invalid route format '"@ + r + "', expected 'path=target'"@
}

/// The routes that `path=target` arguments give, added in order to
/// `table`, or the first malformed argument.
pub open spec fn routes_from_args(table: Seq<(Seq<char>, AddressView)>, args: Seq<Seq<char>>) -> core::result::Result<
    Seq<(Seq<char>, AddressView)>,
    Seq<char>,
>
    decreases args.len(),
{
    if args.len() == 0 {
        Ok(table)
    } else {
        match split_once(args[0], '=') {
            None => Err(args[0]),
            Some((p, t)) => routes_from_args(upsert(table, p, AddressView::Text(t)), args.drop_first()),
        }
    }
}

/// The TLS configuration a [`TlsMode`] asks for.
pub open spec fn tls_of_mode(m: TlsMode) -> Option<TlsConfigView> {
    match m {
        TlsMode::Plain => None,
        TlsMode::Files { cert, key } => Some(TlsConfigView::Files { cert_path: cert@, key_path: key@ }),
        TlsMode::SelfSigned => Some(TlsConfigView::SelfSigned),
    }
}

/// The TLS mode of the server's command-line flags: files when both a
/// certificate and a key are given without `--tls-self-signed`, a
/// self-signed certificate when only that flag is given, and none otherwise.
pub fn tls_mode_of<'a>(cert: Option<&'a str>, key: Option<&'a str>, self_signed: bool) -> (r: TlsMode<'a>)
    ensures
        match (cert, key, self_signed) {
            (Some(c), Some(k), false) => r matches TlsMode::Files { cert: rc, key: rk } && rc@ == c@ && rk@ == k@,
            (None, None, true) => r is SelfSigned,
            _ => r is Plain,
        },
{
    match (cert, key, self_signed) {
        (Some(c), Some(k), false) => TlsMode::Files { cert: c, key: k },
        (None, None, true) => TlsMode::SelfSigned,
        _ => TlsMode::Plain,
    }
}

/// A server speaks TLS exactly when its command line asks for it: no TLS
/// for the plain mode, a self-signed certificate for that mode, and the
/// given certificate and key files, in that order, for the files mode.
pub proof fn lemma_tls_of_mode(m: TlsMode)
    ensures
        tls_of_mode(m) is None <==> m is Plain,
        m is SelfSigned ==> tls_of_mode(m) == Some(TlsConfigView::SelfSigned),
        m matches TlsMode::Files { cert, key } ==> tls_of_mode(m) == Some(
            TlsConfigView::Files { cert_path: cert@, key_path: key@ },
        ),
{
}

impl ProxyServerBuilder {
    /// Create a new builder with no routes, no default target and no TLS.
    pub fn new() -> (r: Self)
        ensures
            r@.routes == Seq::<(Seq<char>, AddressView)>::empty(),
            r@.default_target is None,
            r@.tls is None,
            keys_distinct(r@.routes),
    {
        let r = ProxyServerBuilder { routes: Vec::new(), default_target: None, tls_config: None };
        assert(r@.routes =~= Seq::<(Seq<char>, AddressView)>::empty());
        r
    }

    /// Add a route mapping a URL path to a TCP target address; a route
    /// already given for the path is replaced.
    pub fn route(self, path: &str, target: Address) -> (r: Self)
        ensures
            r@.routes == upsert(self@.routes, path@, target@),
            r@.default_target == self@.default_target,
            r@.tls == self@.tls,
            keys_distinct(self@.routes) ==> keys_distinct(r@.routes),
    {
        let mut s = self;
        let ghost before = s.routes@;
        let ghost tv = target@;
        upsert_entry(&mut s.routes, path, target);
        proof {
            lemma_route_table_upsert(before, path@, target, s.routes@);
            if keys_distinct(route_table(before)) {
                lemma_upsert_distinct(route_table(before), path@, tv);
            }
        }
        s
    }

    /// Set the default target for paths that don't match any route.
    pub fn default_target(self, target: Address) -> (r: Self)
        ensures
            r@.routes == self@.routes,
            r@.default_target == Some(target@),
            r@.tls == self@.tls,
    {
        let mut s = self;
        s.default_target = Some(target);
        s
    }

    /// Enable TLS (WSS) with the given certificate and key files (PEM).
    pub fn tls(self, cert_path: &str, key_path: &str) -> (r: Self)
        ensures
            r@.routes == self@.routes,
            r@.default_target == self@.default_target,
            r@.tls == Some(TlsConfigView::Files { cert_path: cert_path@, key_path: key_path@ }),
    {
        let mut s = self;
        s.tls_config = Some(TlsConfig::Files { cert_path: cert_path.to_owned(), key_path: key_path.to_owned() });
        s
    }

    /// Enable TLS (WSS) with an automatically generated self-signed
    /// certificate.
    pub fn tls_self_signed(self) -> (r: Self)
        ensures
            r@.routes == self@.routes,
            r@.default_target == self@.default_target,
            r@.tls == Some(TlsConfigView::SelfSigned),
    {
        let mut s = self;
        s.tls_config = Some(TlsConfig::SelfSigned);
        s
    }

    /// Build the `ProxyServer` listening on the given (resolved) address.
    ///
    /// Fails if neither routes nor a default target is configured.
    pub fn bind(self, listen_addr: SocketAddress) -> (r: Result<ProxyServer, Error>)
        ensures
            self@.routes.len() == 0 && self@.default_target is None ==> (r matches Err(e) && e@
                == ErrorView::Config("at least one route or a default_target is required"@)),
            !(self@.routes.len() == 0 && self@.default_target is None) ==> (r matches Ok(s) && s@ == (
            ServerView { listen_addr, routes: self@.routes, default_target: self@.default_target, tls: self@.tls })),
    {
        if self.routes.len() == 0 && self.default_target.is_none() {
            return Err(Error::config("at least one route or a default_target is required"));
        }
        Ok(
            ProxyServer {
                listen_addr,
                routes: self.routes,
                default_target: self.default_target,
                tls_config: self.tls_config,
            },
        )
    }
}

/// Builds the server configuration of the command line: each `path=target`
/// argument adds a route, then the default target and the TLS mode are set.
pub fn builder_from_args(routes: &Vec<String>, default_target: Option<&str>, tls: TlsMode) -> (r: Result<
    ProxyServerBuilder,
    Error,
>)
    ensures
        match routes_from_args(Seq::empty(), routes@.map_values(|s: String| s@)) {
            Err(bad) => r matches Err(e) && e@ == ErrorView::Config(route_format_text(bad)),
            Ok(table) => r matches Ok(b) && keys_distinct(b@.routes) && b@ == (BuilderView {
                routes: table,
                default_target: match default_target {
                    Some(t) => Some(AddressView::Text(t@)),
                    None => None,
                },
                tls: tls_of_mode(tls),
            }),
        },
        r matches Ok(b) ==> (b@.tls is None <==> tls is Plain),
        tls is SelfSigned ==> (r matches Ok(b) ==> b@.tls == Some(TlsConfigView::SelfSigned)),
        tls matches TlsMode::Files { cert, key } ==> (r matches Ok(b) ==> b@.tls == Some(
            TlsConfigView::Files { cert_path: cert@, key_path: key@ },
        )),
        default_target is None ==> (r matches Ok(b) ==> b@.default_target is None),
{
    proof {
        lemma_tls_of_mode(tls);
    }
    let ghost args = routes@.map_values(|s: String| s@);
    let mut builder = ProxyServerBuilder::new();
    let n = routes.len();
    assert(args.skip(0) =~= args);
    for i in 0..n
        invariant
            n == routes@.len(),
            args == routes@.map_values(|s: String| s@),
            routes_from_args(Seq::empty(), args) == routes_from_args(builder@.routes, args.skip(i as int)),
            builder@.default_target is None,
            builder@.tls is None,
            keys_distinct(builder@.routes),
    {
        let ghost rest = args.skip(i as int);
        assert(rest[0] == routes@[i as int]@);
        assert(rest.drop_first() =~= args.skip(i + 1));
        let r = chars_of(routes[i].as_str());
        match split_once_chars(r.as_slice(), '=') {
            None => {
                let m = join3("Invalid route format '", routes[i].as_str(), "', expected 'path=target'");
                return Err(Error::config(m.as_str()));
            },
            Some((p, t)) => {
                let path = string_of(p.as_slice());
                let target = string_of(t.as_slice());
                builder = builder.route(path.as_str(), Address::text(target.as_str()));
            },
        }
    }
    assert(args.skip(n as int) =~= Seq::<Seq<char>>::empty());
    if let Some(t) = default_target {
        builder = builder.default_target(Address::text(t));
    }
    match tls {
        TlsMode::Plain => {},
        TlsMode::Files { cert, key } => {
            builder = builder.tls(cert, key);
        },
        TlsMode::SelfSigned => {
            builder = builder.tls_self_signed();
        },
    }
    Ok(builder)
}

/// A WebSocket proxy server that forwards WebSocket connections to TCP.
#[derive(Clone, Debug)]
pub struct ProxyServer {
    listen_addr: SocketAddress,
    routes: Vec<(String, Address)>,
    default_target: Option<Address>,
    tls_config: Option<TlsConfig>,
}

/// The mathematical value of a [`ProxyServer`].
pub struct ServerView {
    pub listen_addr: SocketAddress,
    pub routes: Seq<(Seq<char>, AddressView)>,
    pub default_target: Option<AddressView>,
    pub tls: Option<TlsConfigView>,
}

impl View for ProxyServer {
    type V = ServerView;

    closed spec fn view(&self) -> ServerView {
        ServerView {
            listen_addr: self.listen_addr,
            routes: route_table(self.routes@),
            default_target: opt_addr(self.default_target),
            tls: opt_tls(self.tls_config),
        }
    }
}

impl ProxyServer {
    /// Create a new builder for configuring a `ProxyServer`.
    pub fn builder() -> (r: ProxyServerBuilder)
        ensures
            r@.routes == Seq::<(Seq<char>, AddressView)>::empty(),
            r@.default_target is None,
            r@.tls is None,
    {
        ProxyServerBuilder::new()
    }

    /// The address the server listens on.
    pub fn listen_addr(&self) -> (r: SocketAddress)
        ensures
            r == self@.listen_addr,
    {
        self.listen_addr
    }

    /// The TLS configuration, if the server speaks WSS.
    pub fn tls_config(&self) -> (r: Option<TlsConfig>)
        ensures
            opt_tls(r) == self@.tls,
    {
        match &self.tls_config {
            Some(TlsConfig::Files { cert_path, key_path }) => Some(
                TlsConfig::Files { cert_path: cert_path.clone(), key_path: key_path.clone() },
            ),
            Some(TlsConfig::SelfSigned) => Some(TlsConfig::SelfSigned),
            None => None,
        }
    }

    /// The target a request path is forwarded to: the route for the path,
    /// else the route for the path without trailing `/`, else the default
    /// target; without any of them, `NoRouteFound` for the path.
    pub fn target_for(&self, path: &str) -> (r: Result<Address, Error>)
        ensures
            match select_target(self@.routes, self@.default_target, path@) {
                Some(a) => r matches Ok(t) && t@ == a,
                None => r matches Err(e) && e@ == ErrorView::NoRouteFound(path@),
            },
    {
        let ghost rt = route_table(self.routes@);
        let ghost tv = table_view(self.routes@);
        proof {
            lemma_select_views(self.routes@, self.default_target, path@);
        }
        match choose_route(&self.routes, self.default_target.is_some(), path) {
            RouteChoice::Route(i) => Ok(self.routes[i].1.copy()),
            RouteChoice::Default => match &self.default_target {
                Some(a) => Ok(a.copy()),
                None => Err(Error::no_route_found(path)),
            },
            RouteChoice::NoRoute => Err(Error::no_route_found(path)),
        }
    }
}

proof fn lemma_lookup_views(entries: Seq<(String, Address)>, key: Seq<char>)
    ensures
        crate::routing::lookup_key(route_table(entries), key) == match crate::routing::lookup_key(
            table_view(entries),
            key,
        ) {
            Some(a) => Some(a@),
            None => None::<AddressView>,
        },
    decreases entries.len(),
{
    if entries.len() > 0 {
        assert(route_table(entries).drop_first() =~= route_table(entries.drop_first()));
        assert(table_view(entries).drop_first() =~= table_view(entries.drop_first()));
        lemma_lookup_views(entries.drop_first(), key);
    }
}

proof fn lemma_select_views(entries: Seq<(String, Address)>, default: Option<Address>, path: Seq<char>)
    ensures
        select_target(route_table(entries), opt_addr(default), path) == match select_target(
            table_view(entries),
            None::<Address>,
            path,
        ) {
            Some(a) => Some(a@),
            None => opt_addr(default),
        },
{
    lemma_lookup_views(entries, path);
    lemma_lookup_views(entries, crate::text::trim_end(path, '/'));
}

/// The TLS configuration a configuration file asks for: none without TLS,
/// a self-signed certificate, or certificate and key files.
pub open spec fn tls_settings_of(c: crate::config::ServerFileView) -> core::result::Result<Option<TlsConfigView>, Seq<char>> {
    if !(c.tls.self_signed || c.tls.cert is Some) {
        Ok(None)
    } else if c.tls.self_signed {
        Ok(Some(TlsConfigView::SelfSigned))
    } else if c.tls.cert is Some && c.tls.key is Some {
        Ok(Some(TlsConfigView::Files { cert_path: c.tls.cert->Some_0, key_path: c.tls.key->Some_0 }))
    } else {
        Err("invalid TLS configuration"@)
    }
}

/// The TLS a configuration file asks for: a self-signed certificate when
/// it says so; else none without a certificate; else the certificate and key
/// files, in that order, when both are given; else a configuration error.
pub proof fn lemma_tls_settings_of(c: crate::config::ServerFileView)
    ensures
        c.tls.self_signed ==> tls_settings_of(c) == Ok::<_, Seq<char>>(Some(TlsConfigView::SelfSigned)),
        !c.tls.self_signed && c.tls.cert is None ==> tls_settings_of(c) == Ok::<Option<TlsConfigView>, Seq<char>>(
            None,
        ),
        !c.tls.self_signed && c.tls.cert is Some && c.tls.key is Some ==> tls_settings_of(c) == Ok::<_, Seq<char>>(
            Some(TlsConfigView::Files { cert_path: c.tls.cert->Some_0, key_path: c.tls.key->Some_0 }),
        ),
        !c.tls.self_signed && c.tls.cert is Some && c.tls.key is None ==> tls_settings_of(c) == Err::<
            Option<TlsConfigView>,
            _,
        >("invalid TLS configuration"@),
{
}

/// Decides the TLS setup of a configuration file.
pub fn tls_settings(config: &ServerFileConfig) -> (r: Result<Option<TlsConfig>, Error>)
    ensures
        match tls_settings_of(config@) {
            Ok(t) => r matches Ok(x) && opt_tls(x) == t,
            Err(m) => r matches Err(e) && e@ == ErrorView::Config(m),
        },
        config.tls.self_signed ==> (r matches Ok(Some(t)) && t is SelfSigned),
        !config.tls.self_signed && config.tls.cert is None ==> (r matches Ok(t) && t is None),
        !config.tls.self_signed && config.tls.cert is Some && config.tls.key is Some ==> (r matches Ok(
            Some(TlsConfig::Files { cert_path, key_path }),
        ) && cert_path@ == config.tls.cert->Some_0@ && key_path@ == config.tls.key->Some_0@),
        !config.tls.self_signed && config.tls.cert is Some && config.tls.key is None ==> (r matches Err(e) && e@
            == ErrorView::Config("invalid TLS configuration"@)),
{
    proof {
        lemma_tls_settings_of(config@);
    }
    if !config.has_tls() {
        return Ok(None);
    }
    if config.tls.self_signed {
        return Ok(Some(TlsConfig::SelfSigned));
    }
    match (&config.tls.cert, &config.tls.key) {
        (Some(c), Some(k)) => Ok(Some(TlsConfig::Files { cert_path: c.clone(), key_path: k.clone() })),
        _ => Err(Error::config("invalid TLS configuration")),
    }
}

} // verus!
