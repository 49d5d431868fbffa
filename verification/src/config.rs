//! Server configuration files: validation, address resolution and reloads.

use vstd::prelude::*;
use crate::addr::{outcome_view, resolve_in, Resolutions, SocketAddress};
use crate::error::{error_text, Error, ErrorView};
use crate::paths::path_ends_with;
use crate::paths::path_ends_with_exec;
use crate::routing::{find, keys_distinct, lookup_key, select_target, table_view, choose_route, RouteChoice};
use crate::text::{join2, join4, join6};

verus! {

/// TLS settings of a configuration file.
#[derive(Clone, Debug)]
pub struct TlsFileConfig {
    /// Path to TLS certificate file (PEM format)
    pub cert: Option<String>,
    /// Path to TLS private key file (PEM format)
    pub key: Option<String>,
    /// Generate a self-signed certificate
    pub self_signed: bool,
}

/// The mathematical value of a [`TlsFileConfig`].
pub struct TlsFileView {
    pub cert: Option<Seq<char>>,
    pub key: Option<Seq<char>>,
    pub self_signed: bool,
}

/// The view of an optional string.
pub open spec fn opt_str(o: Option<String>) -> Option<Seq<char>> {
    match o {
        Some(s) => Some(s@),
        None => None,
    }
}

fn copy_opt(o: &Option<String>) -> (r: Option<String>)
    ensures
        opt_str(r) == opt_str(*o),
{
    match o {
        Some(s) => Some(s.clone()),
        None => None,
    }
}

fn opt_eq(a: &Option<String>, b: &Option<String>) -> (r: bool)
    ensures
        r == (opt_str(*a) == opt_str(*b)),
{
    match (a, b) {
        (Some(x), Some(y)) => *x == *y,
        (None, None) => true,
        _ => false,
    }
}

impl View for TlsFileConfig {
    type V = TlsFileView;

    open spec fn view(&self) -> TlsFileView {
        TlsFileView { cert: opt_str(self.cert), key: opt_str(self.key), self_signed: self.self_signed }
    }
}

impl Default for TlsFileConfig {
    fn default() -> (r: Self)
        ensures
            r@ == (TlsFileView { cert: None, key: None, self_signed: false }),
    {
        TlsFileConfig { cert: None, key: None, self_signed: false }
    }
}

impl TlsFileConfig {
    /// Whether two TLS settings are the same.
    pub fn same_as(&self, other: &TlsFileConfig) -> (r: bool)
        ensures
            r == (self@ == other@),
    {
        opt_eq(&self.cert, &other.cert) && opt_eq(&self.key, &other.key) && self.self_signed
            == other.self_signed
    }

    /// A copy with the same value.
    pub fn copy(&self) -> (r: TlsFileConfig)
        ensures
            r@ == self@,
    {
        TlsFileConfig {
            cert: copy_opt(&self.cert),
            key: copy_opt(&self.key),
            self_signed: self.self_signed,
        }
    }
}

/// Server configuration as read from a configuration file.
#[derive(Clone, Debug)]
pub struct ServerFileConfig {
    /// Address to listen for WebSocket connections
    pub listen: String,
    /// Default target for paths that don't match any route
    pub default_target: Option<String>,
    /// Route mappings (path -> target address)
    pub routes: Vec<(String, String)>,
    /// TLS configuration
    pub tls: TlsFileConfig,
}

/// The mathematical value of a [`ServerFileConfig`].
pub struct ServerFileView {
    pub listen: Seq<char>,
    pub default_target: Option<Seq<char>>,
    pub routes: Seq<(Seq<char>, Seq<char>)>,
    pub tls: TlsFileView,
}

/// The view of a list of string pairs.
pub open spec fn pairs_view(v: Seq<(String, String)>) -> Seq<(Seq<char>, Seq<char>)> {
    v.map_values(|e: (String, String)| (e.0@, e.1@))
}

impl View for ServerFileConfig {
    type V = ServerFileView;

    open spec fn view(&self) -> ServerFileView {
        ServerFileView {
            listen: self.listen@,
            default_target: opt_str(self.default_target),
            routes: pairs_view(self.routes@),
            tls: self.tls@,
        }
    }
}

/// The position of the first route whose target does not resolve, or the
/// number of routes if all resolve.
pub open spec fn first_unresolved(
    routes: Seq<(Seq<char>, Seq<char>)>,
    res: Seq<(Seq<char>, core::result::Result<SocketAddress, Seq<char>>)>,
) -> int
    decreases routes.len(),
{
    if routes.len() == 0 {
        0
    } else if resolve_in(res, routes[0].1) is Err {
        0
    } else {
        1 + first_unresolved(routes.drop_first(), res)
    }
}

/// The message of the first problem that validation finds, if any.
pub open spec fn validation_error(
    c: ServerFileView,
    res: Seq<(Seq<char>, core::result::Result<SocketAddress, Seq<char>>)>,
) -> Option<Seq<char>> {
    let bad = first_unresolved(c.routes, res);
    if resolve_in(res, c.listen) is Err {
        Some("invalid listen address '"@ + c.listen + "': "@ + resolve_in(res, c.listen)->Err_0)
    } else if c.default_target is Some && resolve_in(res, c.default_target->Some_0) is Err {
        Some(
            "invalid default_target '"@ + c.default_target->Some_0 + "': "@ + resolve_in(
                res,
                c.default_target->Some_0,
            )->Err_0,
        )
    } else if bad < c.routes.len() {
        Some(
            "invalid target '"@ + c.routes[bad].1 + "' for route '"@ + c.routes[bad].0 + "': "@
                + resolve_in(res, c.routes[bad].1)->Err_0,
        )
    } else if c.tls.self_signed && (c.tls.cert is Some || c.tls.key is Some) {
        Some("cannot use self_signed with cert/key files"@)
    } else if (c.tls.cert is Some) != (c.tls.key is Some) {
        Some("both cert and key must be provided"@)
    } else if c.routes.len() == 0 && c.default_target is None {
        Some("at least one route or default_target is required"@)
    } else {
        None
    }
}

/// What a configuration that validates satisfies: its listen address, its
/// default target and every route target resolve; a certificate is given
/// exactly when a key is; a self-signed certificate comes with neither; and
/// there is a route or a default target.
pub proof fn lemma_validation_accepts(
    c: ServerFileView,
    res: Seq<(Seq<char>, core::result::Result<SocketAddress, Seq<char>>)>,
)
    ensures
        validation_error(c, res) is None ==> {
            &&& resolve_in(res, c.listen) is Ok
            &&& (c.default_target matches Some(t) ==> resolve_in(res, t) is Ok)
            &&& forall|i: int| 0 <= i < c.routes.len() ==> resolve_in(res, #[trigger] c.routes[i].1) is Ok
            &&& (c.tls.cert is Some <==> c.tls.key is Some)
            &&& !(c.tls.self_signed && (c.tls.cert is Some || c.tls.key is Some))
            &&& (c.routes.len() > 0 || c.default_target is Some)
        },
{
    if validation_error(c, res) is None {
        lemma_first_unresolved_all(c.routes, res);
    }
}

proof fn lemma_first_unresolved_all(
    routes: Seq<(Seq<char>, Seq<char>)>,
    res: Seq<(Seq<char>, core::result::Result<SocketAddress, Seq<char>>)>,
)
    ensures
        0 <= first_unresolved(routes, res) <= routes.len(),
        forall|i: int| 0 <= i < first_unresolved(routes, res) ==> resolve_in(res, #[trigger] routes[i].1) is Ok,
    decreases routes.len(),
{
    if routes.len() > 0 && resolve_in(res, routes[0].1) is Ok {
        lemma_first_unresolved_all(routes.drop_first(), res);
        assert forall|i: int| 0 <= i < first_unresolved(routes, res) implies resolve_in(res, #[trigger] routes[i].1)
            is Ok by {
            if i > 0 {
                assert(routes[i] == routes.drop_first()[i - 1]);
            }
        }
    }
}

/// Every address the configuration names: the listen address, the default
/// target if any, then the route targets in order.
pub open spec fn config_addresses(c: ServerFileView) -> Seq<Seq<char>> {
    seq![c.listen] + (match c.default_target {
        Some(t) => seq![t],
        None => Seq::empty(),
    }) + c.routes.map_values(|r: (Seq<char>, Seq<char>)| r.1)
}

proof fn lemma_first_unresolved(
    routes: Seq<(Seq<char>, Seq<char>)>,
    res: Seq<(Seq<char>, core::result::Result<SocketAddress, Seq<char>>)>,
    i: int,
)
    requires
        0 <= i <= routes.len(),
        forall|j: int| 0 <= j < i ==> resolve_in(res, #[trigger] routes[j].1) is Ok,
        i < routes.len() ==> resolve_in(res, routes[i].1) is Err,
    ensures
        first_unresolved(routes, res) == i,
    decreases i,
{
    if i > 0 {
        let r = routes.drop_first();
        assert forall|j: int| 0 <= j < i - 1 implies resolve_in(res, #[trigger] r[j].1) is Ok by {
            assert(r[j] == routes[j + 1]);
        }
        lemma_first_unresolved(r, res, i - 1);
    }
}

fn copy_pairs(v: &Vec<(String, String)>) -> (r: Vec<(String, String)>)
    ensures
        pairs_view(r@) == pairs_view(v@),
{
    let mut r: Vec<(String, String)> = Vec::new();
    let n = v.len();
    for i in 0..n
        invariant
            n == v@.len(),
            pairs_view(r@) == pairs_view(v@).take(i as int),
    {
        let e = (v[i].0.clone(), v[i].1.clone());
        let ghost before = pairs_view(r@);
        r.push(e);
        assert(pairs_view(r@) =~= before.push((v@[i as int].0@, v@[i as int].1@)));
        assert(pairs_view(v@).take(i + 1) =~= pairs_view(v@).take(i as int).push(
            (v@[i as int].0@, v@[i as int].1@),
        ));
    }
    assert(pairs_view(v@).take(n as int) =~= pairs_view(v@));
    r
}

impl ServerFileConfig {
    /// A copy with the same value.
    pub fn copy(&self) -> (r: ServerFileConfig)
        ensures
            r@ == self@,
    {
        ServerFileConfig {
            listen: self.listen.clone(),
            default_target: copy_opt(&self.default_target),
            routes: copy_pairs(&self.routes),
            tls: self.tls.copy(),
        }
    }

    /// Check if TLS is enabled.
    pub fn has_tls(&self) -> (r: bool)
        ensures
            r == (self@.tls.self_signed || self@.tls.cert is Some),
    {
        self.tls.self_signed || self.tls.cert.is_some()
    }

    /// Check if only routing configuration changed (not listen address or TLS).
    pub fn only_routing_changed(&self, other: &Self) -> (r: bool)
        ensures
            r == (self@.listen == other@.listen && self@.tls == other@.tls),
    {
        self.listen == other.listen && self.tls.same_as(&other.tls)
    }

    /// The target configured for a route path.
    pub fn route(&self, path: &str) -> (r: Option<&String>)
        ensures
            match r {
                Some(t) => lookup_key(table_view(self.routes@), path@) == Some(*t),
                None => lookup_key(table_view(self.routes@), path@) is None,
            },
    {
        find(&self.routes, path)
    }

    /// Every address the configuration names, to be resolved before
    /// validation.
    pub fn addresses(&self) -> (r: Vec<String>)
        ensures
            r@.map_values(|s: String| s@) == config_addresses(self@),
    {
        let mut r: Vec<String> = Vec::new();
        r.push(self.listen.clone());
        match &self.default_target {
            Some(t) => r.push(t.clone()),
            None => {},
        }
        let ghost head = r@.map_values(|s: String| s@);
        let ghost targets = self@.routes.map_values(|p: (Seq<char>, Seq<char>)| p.1);
        let n = self.routes.len();
        for i in 0..n
            invariant
                n == self.routes@.len(),
                targets == self@.routes.map_values(|p: (Seq<char>, Seq<char>)| p.1),
                r@.map_values(|s: String| s@) == head + targets.take(i as int),
        {
            let ghost before = r@.map_values(|s: String| s@);
            r.push(self.routes[i].1.clone());
            assert(r@.map_values(|s: String| s@) =~= before.push(self.routes@[i as int].1@));
            assert(targets.take(i + 1) =~= targets.take(i as int).push(targets[i as int]));
        }
        assert(targets.take(n as int) =~= targets);
        assert(head + targets =~= config_addresses(self@));
        r
    }

    /// Validate the configuration, given the outcome of resolving the
    /// addresses it names.
    pub fn validate(&self, resolved: &Resolutions) -> (r: Result<(), Error>)
        ensures
            r is Ok <==> validation_error(self@, resolved@) is None,
            r matches Err(e) ==> e@ == ErrorView::Config(validation_error(self@, resolved@)->Some_0),
            r is Ok ==> (self.tls.cert is Some <==> self.tls.key is Some),
            r is Ok ==> !(self.tls.self_signed && (self.tls.cert is Some || self.tls.key is Some)),
            r is Ok ==> (self.routes@.len() > 0 || self.default_target is Some),
            r is Ok ==> resolve_in(resolved@, self@.listen) is Ok,
    {
        proof {
            lemma_validation_accepts(self@, resolved@);
        }
        let ghost c = self@;
        let ghost res = resolved@;
        match resolved.lookup(self.listen.as_str()) {
            Err(e) => {
                let m = join4("invalid listen address '", self.listen.as_str(), "': ", e.as_str());
                return Err(Error::config(m.as_str()));
            },
            Ok(_) => {},
        }
        match &self.default_target {
            Some(t) => match resolved.lookup(t.as_str()) {
                Err(e) => {
                    let m = join4("invalid default_target '", t.as_str(), "': ", e.as_str());
                    return Err(Error::config(m.as_str()));
                },
                Ok(_) => {},
            },
            None => {},
        }
        let n = self.routes.len();
        for i in 0..n
            invariant
                n == self.routes@.len(),
                c == self@,
                res == resolved@,
                resolve_in(res, c.listen) is Ok,
                !(c.default_target is Some && resolve_in(res, c.default_target->Some_0) is Err),
                forall|j: int| 0 <= j < i ==> resolve_in(res, #[trigger] c.routes[j].1) is Ok,
        {
            assert(c.routes[i as int] == (self.routes@[i as int].0@, self.routes@[i as int].1@));
            match resolved.lookup(self.routes[i].1.as_str()) {
                Err(e) => {
                    proof {
                        lemma_first_unresolved(c.routes, res, i as int);
                    }
                    let m = join6(
                        "invalid target '",
                        self.routes[i].1.as_str(),
                        "' for route '",
                        self.routes[i].0.as_str(),
                        "': ",
                        e.as_str(),
                    );
                    return Err(Error::config(m.as_str()));
                },
                Ok(_) => {},
            }
        }
        proof {
            lemma_first_unresolved(c.routes, res, n as int);
        }
        if self.tls.self_signed && (self.tls.cert.is_some() || self.tls.key.is_some()) {
            return Err(Error::config("cannot use self_signed with cert/key files"));
        }
        if self.tls.cert.is_some() != self.tls.key.is_some() {
            return Err(Error::config("both cert and key must be provided"));
        }
        if self.routes.len() == 0 && self.default_target.is_none() {
            return Err(Error::config("at least one route or default_target is required"));
        }
        Ok(())
    }
}

/// Server configuration with its addresses resolved.
#[derive(Clone, Debug)]
pub struct ResolvedConfig {
    pub listen_addr: SocketAddress,
    pub default_target: Option<SocketAddress>,
    pub routes: Vec<(String, SocketAddress)>,
}

/// The mathematical value of a [`ResolvedConfig`].
pub struct ResolvedView {
    pub listen_addr: SocketAddress,
    pub default_target: Option<SocketAddress>,
    pub routes: Seq<(Seq<char>, SocketAddress)>,
}

impl View for ResolvedConfig {
    type V = ResolvedView;

    open spec fn view(&self) -> ResolvedView {
        ResolvedView {
            listen_addr: self.listen_addr,
            default_target: self.default_target,
            routes: table_view(self.routes@),
        }
    }
}

/// The resolved form of a configuration, or the message of the first
/// address that does not resolve.
pub open spec fn resolved_config(
    c: ServerFileView,
    res: Seq<(Seq<char>, core::result::Result<SocketAddress, Seq<char>>)>,
) -> core::result::Result<ResolvedView, Seq<char>> {
    let bad = first_unresolved(c.routes, res);
    if resolve_in(res, c.listen) is Err {
        Err("invalid listen address: "@ + resolve_in(res, c.listen)->Err_0)
    } else if c.default_target is Some && resolve_in(res, c.default_target->Some_0) is Err {
        Err("invalid default_target: "@ + resolve_in(res, c.default_target->Some_0)->Err_0)
    } else if bad < c.routes.len() {
        Err(
            "invalid target for '"@ + c.routes[bad].0 + "': "@ + resolve_in(
                res,
                c.routes[bad].1,
            )->Err_0,
        )
    } else {
        Ok(
            ResolvedView {
                listen_addr: resolve_in(res, c.listen)->Ok_0,
                default_target: match c.default_target {
                    Some(t) => Some(resolve_in(res, t)->Ok_0),
                    None => None,
                },
                routes: c.routes.map_values(
                    |r: (Seq<char>, Seq<char>)| (r.0, resolve_in(res, r.1)->Ok_0),
                ),
            },
        )
    }
}

impl ResolvedConfig {
    /// Create the resolved configuration from a configuration file's
    /// contents and the outcome of resolving its addresses.
    pub fn from_file_config(config: &ServerFileConfig, resolved: &Resolutions) -> (r: Result<
        Self,
        Error,
    >)
        ensures
            match resolved_config(config@, resolved@) {
                Ok(v) => r matches Ok(rc) && rc@ == v,
                Err(m) => r matches Err(e) && e@ == ErrorView::Config(m),
            },
            keys_distinct(config@.routes) ==> (r matches Ok(rc) ==> keys_distinct(rc@.routes)),
    {
        let ghost c = config@;
        let ghost res = resolved@;
        let listen_addr = match resolved.lookup(config.listen.as_str()) {
            Err(e) => {
                let m = join2("invalid listen address: ", e.as_str());
                return Err(Error::config(m.as_str()));
            },
            Ok(a) => a,
        };
        let default_target = match &config.default_target {
            Some(t) => match resolved.lookup(t.as_str()) {
                Err(e) => {
                    let m = join2("invalid default_target: ", e.as_str());
                    return Err(Error::config(m.as_str()));
                },
                Ok(a) => Some(a),
            },
            None => None,
        };
        let mut routes: Vec<(String, SocketAddress)> = Vec::new();
        let n = config.routes.len();
        let ghost f = |r: (Seq<char>, Seq<char>)| (r.0, resolve_in(res, r.1)->Ok_0);
        for i in 0..n
            invariant
                n == config.routes@.len(),
                c == config@,
                res == resolved@,
                f == (|r: (Seq<char>, Seq<char>)| (r.0, resolve_in(res, r.1)->Ok_0)),
                resolve_in(res, c.listen) is Ok,
                !(c.default_target is Some && resolve_in(res, c.default_target->Some_0) is Err),
                forall|j: int| 0 <= j < i ==> resolve_in(res, #[trigger] c.routes[j].1) is Ok,
                table_view(routes@) == c.routes.take(i as int).map_values(f),
        {
            assert(c.routes[i as int] == (config.routes@[i as int].0@, config.routes@[i as int].1@));
            match resolved.lookup(config.routes[i].1.as_str()) {
                Err(e) => {
                    proof {
                        lemma_first_unresolved(c.routes, res, i as int);
                    }
                    let m = join4("invalid target for '", config.routes[i].0.as_str(), "': ", e.as_str());
                    return Err(Error::config(m.as_str()));
                },
                Ok(a) => {
                    let ghost before = table_view(routes@);
                    routes.push((config.routes[i].0.clone(), a));
                    assert(table_view(routes@) =~= before.push((c.routes[i as int].0, a)));
                    assert(c.routes.take(i + 1).map_values(f) =~= c.routes.take(i as int).map_values(f).push(
                        f(c.routes[i as int]),
                    ));
                },
            }
        }
        proof {
            lemma_first_unresolved(c.routes, res, n as int);
            assert(c.routes.take(n as int) =~= c.routes);
        }
        let r = ResolvedConfig { listen_addr, default_target, routes };
        Ok(r)
    }

    /// The address a request path is forwarded to: the route for the path,
    /// else the route for the path without trailing `/`, else the default
    /// target; without any of them, `NoRouteFound` for the path.
    pub fn target_for(&self, path: &str) -> (r: Result<SocketAddress, Error>)
        ensures
            match select_target(self@.routes, self@.default_target, path@) {
                Some(a) => r == Ok::<SocketAddress, Error>(a),
                None => r matches Err(e) && e@ == ErrorView::NoRouteFound(path@),
            },
    {
        match choose_route(&self.routes, self.default_target.is_some(), path) {
            RouteChoice::Route(i) => Ok(self.routes[i].1),
            RouteChoice::Default => match self.default_target {
                Some(a) => Ok(a),
                None => Err(Error::no_route_found(path)),
            },
            RouteChoice::NoRoute => Err(Error::no_route_found(path)),
        }
    }
}


/// A configuration that validates can be resolved: every address it names
/// resolves.
pub proof fn lemma_valid_config_resolves(
    c: ServerFileView,
    res: Seq<(Seq<char>, core::result::Result<SocketAddress, Seq<char>>)>,
)
    requires
        validation_error(c, res) is None,
    ensures
        resolved_config(c, res) is Ok,
{
}

/// The routes of a configuration with each target resolved.
pub open spec fn resolve_routes(
    routes: Seq<(Seq<char>, Seq<char>)>,
    res: Seq<(Seq<char>, core::result::Result<SocketAddress, Seq<char>>)>,
) -> Seq<(Seq<char>, SocketAddress)> {
    routes.map_values(|r: (Seq<char>, Seq<char>)| (r.0, resolve_in(res, r.1)->Ok_0))
}

proof fn lemma_lookup_resolved(
    routes: Seq<(Seq<char>, Seq<char>)>,
    res: Seq<(Seq<char>, core::result::Result<SocketAddress, Seq<char>>)>,
    key: Seq<char>,
)
    ensures
        lookup_key(resolve_routes(routes, res), key) == match lookup_key(routes, key) {
            Some(t) => Some(resolve_in(res, t)->Ok_0),
            None => None::<SocketAddress>,
        },
    decreases routes.len(),
{
    if routes.len() > 0 {
        assert(resolve_routes(routes, res).drop_first() =~= resolve_routes(routes.drop_first(), res));
        lemma_lookup_resolved(routes.drop_first(), res, key);
    }
}

/// After a configuration is resolved, a request path is forwarded to the
/// resolved address of the target that the file's routes and default
/// target choose for it, and to none when they choose none.
pub proof fn lemma_resolved_routing(
    c: ServerFileView,
    res: Seq<(Seq<char>, core::result::Result<SocketAddress, Seq<char>>)>,
    path: Seq<char>,
)
    requires
        resolved_config(c, res) is Ok,
    ensures
        ({
            let rv = resolved_config(c, res)->Ok_0;
            select_target(rv.routes, rv.default_target, path) == match select_target(
                c.routes,
                c.default_target,
                path,
            ) {
                Some(t) => Some(resolve_in(res, t)->Ok_0),
                None => None::<SocketAddress>,
            }
        }),
{
    lemma_lookup_resolved(c.routes, res, path);
    lemma_lookup_resolved(c.routes, res, crate::text::trim_end(path, '/'));
}

/// Configuration change notification.
#[derive(Clone, Debug)]
pub enum ConfigChange {
    /// Only routing changed (routes/default_target) - can hot-reload
    RoutingOnly(ServerFileConfig),
    /// Full restart required (listen address or TLS changed)
    FullRestart(ServerFileConfig),
    /// Error loading config
    Error(String),
}

/// The mathematical value of a [`ConfigChange`].
pub enum ChangeView {
    RoutingOnly(ServerFileView),
    FullRestart(ServerFileView),
    Error(Seq<char>),
}

/// The view of a configuration change.
pub open spec fn change_view(c: ConfigChange) -> ChangeView {
    match c {
        ConfigChange::RoutingOnly(n) => ChangeView::RoutingOnly(n@),
        ConfigChange::FullRestart(n) => ChangeView::FullRestart(n@),
        ConfigChange::Error(m) => ChangeView::Error(m@),
    }
}

/// The view of what loading the configuration file gave.
pub open spec fn loaded_view(l: Result<ServerFileConfig, Error>) -> core::result::Result<ServerFileView, ErrorView> {
    match l {
        Ok(c) => Ok(c@),
        Err(e) => Err(e@),
    }
}

/// The change a reload reports against the configuration in force: the
/// error's text, or the new configuration, as a routing-only change when the
/// listen address and TLS settings are unchanged and as a full restart
/// otherwise.
pub open spec fn reload_change(
    current: ServerFileView,
    loaded: core::result::Result<ServerFileView, ErrorView>,
) -> ChangeView {
    match loaded {
        Ok(n) => if current.listen == n.listen && current.tls == n.tls {
            ChangeView::RoutingOnly(n)
        } else {
            ChangeView::FullRestart(n)
        },
        Err(e) => ChangeView::Error(error_text(e)),
    }
}

/// The configuration in force after a reload: the loaded one, or the one in
/// force before when loading failed.
pub open spec fn config_after(
    current: ServerFileView,
    loaded: core::result::Result<ServerFileView, ErrorView>,
) -> ServerFileView {
    match loaded {
        Ok(n) => n,
        Err(_) => current,
    }
}

/// The configuration in force after reloads that gave `loads`, in order,
/// starting from `first`.
pub open spec fn config_in_force(
    first: ServerFileView,
    loads: Seq<core::result::Result<ServerFileView, ErrorView>>,
) -> ServerFileView
    decreases loads.len(),
{
    if loads.len() == 0 {
        first
    } else {
        config_after(config_in_force(first, loads.drop_last()), loads.last())
    }
}

/// The last configuration among `loads` that loaded, or `first` when none did.
pub open spec fn last_loaded(
    first: ServerFileView,
    loads: Seq<core::result::Result<ServerFileView, ErrorView>>,
) -> ServerFileView
    decreases loads.len(),
{
    if loads.len() == 0 {
        first
    } else {
        match loads.last() {
            Ok(n) => n,
            Err(_) => last_loaded(first, loads.drop_last()),
        }
    }
}

/// The changes that reloads giving `loads`, in order, report, starting from
/// the configuration `first`.
pub open spec fn reload_changes(
    first: ServerFileView,
    loads: Seq<core::result::Result<ServerFileView, ErrorView>>,
) -> Seq<ChangeView> {
    Seq::new(loads.len(), |i: int| reload_change(config_in_force(first, loads.take(i)), loads[i]))
}

/// Across reloads: the configuration in force is the last one that loaded
/// (the first one when none did), and each reload's change is classified
/// against the last configuration that loaded before it; a failed load
/// reports its error and replaces nothing.
pub proof fn lemma_reload_sequence(
    first: ServerFileView,
    loads: Seq<core::result::Result<ServerFileView, ErrorView>>,
)
    ensures
        config_in_force(first, loads) == last_loaded(first, loads),
        forall|i: int|
            0 <= i < loads.len() ==> #[trigger] reload_changes(first, loads)[i] == reload_change(
                last_loaded(first, loads.take(i)),
                loads[i],
            ),
{
    lemma_in_force_is_last_loaded(first, loads);
    assert forall|i: int| 0 <= i < loads.len() implies #[trigger] reload_changes(first, loads)[i]
        == reload_change(last_loaded(first, loads.take(i)), loads[i]) by {
        lemma_in_force_is_last_loaded(first, loads.take(i));
    }
}

proof fn lemma_in_force_is_last_loaded(
    first: ServerFileView,
    loads: Seq<core::result::Result<ServerFileView, ErrorView>>,
)
    ensures
        config_in_force(first, loads) == last_loaded(first, loads),
    decreases loads.len(),
{
    if loads.len() > 0 {
        lemma_in_force_is_last_loaded(first, loads.drop_last());
    }
}

/// Classifies a reload of the configuration file against the configuration
/// in force, and makes a successfully loaded configuration the one in force.
pub fn classify_reload(current: &mut ServerFileConfig, loaded: Result<ServerFileConfig, Error>) -> (change: ConfigChange)
    ensures
        match loaded {
            Ok(new) => {
                &&& final(current)@ == new@
                &&& if old(current)@.listen == new@.listen && old(current)@.tls == new@.tls {
                    change matches ConfigChange::RoutingOnly(c) && c@ == new@
                } else {
                    change matches ConfigChange::FullRestart(c) && c@ == new@
                }
            },
            Err(e) => {
                &&& final(current)@ == old(current)@
                &&& change matches ConfigChange::Error(m) && m@ == error_text(e@)
            },
        },
        change_view(change) == reload_change(old(current)@, loaded_view(loaded)),
        final(current)@ == config_after(old(current)@, loaded_view(loaded)),
{
    match loaded {
        Ok(new_config) => {
            let change = if current.only_routing_changed(&new_config) {
                ConfigChange::RoutingOnly(new_config.copy())
            } else {
                ConfigChange::FullRestart(new_config.copy())
            };
            *current = new_config;
            change
        },
        Err(e) => ConfigChange::Error(e.message()),
    }
}

/// Whether a file-system event concerns the configuration file: it must be
/// a modification or a creation, and one of its paths must end with the
/// configuration file's path.
pub fn concerns_config(is_modify_or_create: bool, event_paths: &Vec<String>, config_path: &str) -> (r: bool)
    ensures
        r == (is_modify_or_create && exists|i: int|
            0 <= i < event_paths@.len() && path_ends_with(#[trigger] event_paths@[i]@, config_path@)),
{
    if !is_modify_or_create {
        return false;
    }
    let n = event_paths.len();
    for i in 0..n
        invariant
            n == event_paths@.len(),
            is_modify_or_create,
            forall|j: int| 0 <= j < i ==> !path_ends_with(#[trigger] event_paths@[j]@, config_path@),
    {
        if path_ends_with_exec(event_paths[i].as_str(), config_path) {
            assert(path_ends_with(event_paths@[i as int]@, config_path@));
            return true;
        }
    }
    false
}

/// What the server loop does on a configuration notification.
#[derive(Clone, Debug)]
pub enum ReloadStep {
    /// Put this routing configuration in force for new connections.
    Replace(ResolvedConfig),
    /// Keep going; report this message.
    Report(String),
    /// Restart the server with the new configuration.
    Restart,
    /// The watcher has closed: stop.
    Stop,
}

/// Decides what to do with a configuration notification (`None` when the
/// watcher has closed), given the resolution of the new configuration's
/// addresses.
pub fn reload_step(change: Option<ConfigChange>, resolved: &Resolutions) -> (r: ReloadStep)
    ensures
        match change {
            None => r is Stop,
            Some(ConfigChange::FullRestart(_)) => r is Restart,
            Some(ConfigChange::Error(m)) => r matches ReloadStep::Report(t) && t@ == "Config reload error: "@
                + m@,
            Some(ConfigChange::RoutingOnly(c)) => match resolved_config(c@, resolved@) {
                Ok(v) => r matches ReloadStep::Replace(rc) && rc@ == v,
                Err(msg) => r matches ReloadStep::Report(t) && t@ == "Failed to apply config: "@
                    + error_text(ErrorView::Config(msg)),
            },
        },
{
    match change {
        None => ReloadStep::Stop,
        Some(ConfigChange::FullRestart(_)) => ReloadStep::Restart,
        Some(ConfigChange::Error(m)) => ReloadStep::Report(join2("Config reload error: ", m.as_str())),
        Some(ConfigChange::RoutingOnly(c)) => match ResolvedConfig::from_file_config(&c, resolved) {
            Ok(rc) => ReloadStep::Replace(rc),
            Err(e) => {
                let t = e.message();
                ReloadStep::Report(join2("Failed to apply config: ", t.as_str()))
            },
        },
    }
}

} // verus!
