//! URL path router with parameter substitution.
//!
//! Route patterns support `{param}` for one segment and `{*param}` for the
//! rest of the path; the matching itself is done by `matchit`.

use vstd::prelude::*;
use crate::error::{Error, ErrorView};
use crate::routing::lookup_key;
use crate::text::{chars_of, join4, replace_all, replace_all_chars, string_of, trim_end, trim_end_chars};

verus! {

/// The `matchit` router that holds the routes. Verus sees nothing inside it;
/// the insertions it was given are named by [`matchit_insertions`].
#[verifier::external_body]
pub struct MatchTable {
    inner: matchit::Router<String>,
}

/// Every (pattern, target) insertion that a `matchit` router was given, in
/// order, accepted or refused. matchit's tree, and so everything the router
/// answers, is determined by this sequence.
pub uninterp spec fn matchit_insertions(r: MatchTable) -> Seq<(Seq<char>, Seq<char>)>;

/// The message (the `InsertError`'s text) with which `matchit::Router::insert`
/// refuses `pattern` into a router that was given `insertions`; `None` when
/// it accepts the pattern.
pub uninterp spec fn matchit_refusal(insertions: Seq<(Seq<char>, Seq<char>)>, pattern: Seq<char>) -> Option<
    Seq<char>,
>;

/// What `matchit::Router::at` finds for `path` in a router that was given
/// `insertions`: the target and the captured parameters, in order.
pub uninterp spec fn matchit_at(insertions: Seq<(Seq<char>, Seq<char>)>, path: Seq<char>) -> Option<
    (Seq<char>, Seq<(Seq<char>, Seq<char>)>),
>;

/// The insertions that were accepted, in order.
pub open spec fn accepted_routes(insertions: Seq<(Seq<char>, Seq<char>)>) -> Seq<(Seq<char>, Seq<char>)>
    decreases insertions.len(),
{
    if insertions.len() == 0 {
        Seq::empty()
    } else {
        let earlier = insertions.drop_last();
        let last = insertions.last();
        if matchit_refusal(earlier, last.0) is None {
            accepted_routes(earlier).push(last)
        } else {
            accepted_routes(earlier)
        }
    }
}

/// A pattern without `{` or `}`: it names one path, itself.
pub open spec fn is_static(pattern: Seq<char>) -> bool {
    forall|i: int| 0 <= i < pattern.len() ==> pattern[i] != '{' && pattern[i] != '}'
}

/// `matchit::Router::new`: a router that was given no insertions.
#[verifier::external_body]
fn matchit_new() -> (r: MatchTable)
    ensures
        matchit_insertions(r) == Seq::<(Seq<char>, Seq<char>)>::empty(),
{
    MatchTable { inner: matchit::Router::new() }
}

/// `matchit::Router::insert`, with the `InsertError` copied out as its
/// text: the insertion is recorded; whether it succeeds, and the message,
/// are named by `matchit_refusal`. A non-empty pattern that was accepted
/// before is refused (a conflict). (The empty pattern is accepted again
/// while matchit's root is still bare, and then replaces the earlier one.)
#[verifier::external_body]
fn matchit_insert(r: &mut MatchTable, pattern: String, target: String) -> (res: core::result::Result<(), String>)
    ensures
        matchit_insertions(*final(r)) == matchit_insertions(*old(r)).push((pattern@, target@)),
        match res {
            Ok(()) => matchit_refusal(matchit_insertions(*old(r)), pattern@) is None,
            Err(m) => matchit_refusal(matchit_insertions(*old(r)), pattern@) == Some(m@),
        },
        res is Ok && pattern@.len() > 0 ==> lookup_key(accepted_routes(matchit_insertions(*old(r))), pattern@) is None,
{
    match r.inner.insert(pattern, target) {
        Ok(()) => Ok(()),
        Err(e) => Err(e.to_string()),
    }
}

/// `matchit::Router::at`, with the matched target and the parameters
/// (from `Params::iter`) copied into plain strings; a `MatchError` is `None`.
/// A non-empty path that is itself an accepted static route is matched by
/// that route (static segments take priority), with no parameters.
#[verifier::external_body]
fn matchit_lookup(r: &MatchTable, path: &str) -> (res: Option<(String, Vec<(String, String)>)>)
    ensures
        match res {
            Some((t, ps)) => matchit_at(matchit_insertions(*r), path@) == Some(
                (t@, ps@.map_values(|p: (String, String)| (p.0@, p.1@))),
            ),
            None => matchit_at(matchit_insertions(*r), path@) is None,
        },
        is_static(path@) && path@.len() > 0 && lookup_key(accepted_routes(matchit_insertions(*r)), path@) is Some
            ==> res is Some && Some(res->Some_0.0@) == lookup_key(accepted_routes(matchit_insertions(*r)), path@)
            && res->Some_0.1@.len() == 0,
{
    match r.inner.at(path) {
        Ok(m) => Some((m.value.clone(), m.params.iter().map(|(k, v)| (k.to_string(), v.to_string())).collect())),
        Err(_) => None,
    }
}

/// The placeholder `{key}`.
pub open spec fn placeholder(key: Seq<char>) -> Seq<char> {
    "{"@ + key + "}"@
}

/// The wildcard placeholder `{*key}`.
pub open spec fn wildcard_placeholder(key: Seq<char>) -> Seq<char> {
    "{*"@ + key + "}"@
}

/// The template after substituting one parameter's value.
pub open spec fn substitute_one(template: Seq<char>, key: Seq<char>, value: Seq<char>) -> Seq<char> {
    replace_all(replace_all(template, placeholder(key), value), wildcard_placeholder(key), value)
}

/// Substitute parameters into a target template, in order: each `{key}`
/// and `{*key}` is replaced by the parameter's value.
pub open spec fn substitute_params(template: Seq<char>, params: Seq<(Seq<char>, Seq<char>)>) -> Seq<char>
    decreases params.len(),
{
    if params.len() == 0 {
        template
    } else {
        substitute_params(substitute_one(template, params[0].0, params[0].1), params.drop_first())
    }
}

/// The target a path resolves to, given the router's insertions: the route matching the
/// path, else the route matching the path without trailing `/` (when that
/// differs), with parameters substituted.
pub open spec fn resolve_path(insertions: Seq<(Seq<char>, Seq<char>)>, path: Seq<char>) -> Option<Seq<char>> {
    match matchit_at(insertions, path) {
        Some((t, ps)) => Some(substitute_params(t, ps)),
        None => {
            let n = trim_end(path, '/');
            if n != path {
                match matchit_at(insertions, n) {
                    Some((t, ps)) => Some(substitute_params(t, ps)),
                    None => None,
                }
            } else {
                None
            }
        },
    }
}

proof fn lemma_substitute_skip(template: Seq<char>, cur: Seq<char>, params: Seq<(Seq<char>, Seq<char>)>, i: int)
    requires
        0 <= i < params.len(),
        substitute_params(template, params) == substitute_params(cur, params.skip(i)),
    ensures
        substitute_params(template, params) == substitute_params(
            substitute_one(cur, params[i].0, params[i].1),
            params.skip(i + 1),
        ),
{
    assert(params.skip(i).drop_first() =~= params.skip(i + 1));
}

fn placeholder_chars(key: &[char], wildcard: bool) -> (r: Vec<char>)
    ensures
        r@ == if wildcard {
            wildcard_placeholder(key@)
        } else {
            placeholder(key@)
        },
        r@.len() > 0,
{
    proof {
        reveal_strlit("}");
    }
    let mut r = if wildcard {
        chars_of("{*")
    } else {
        chars_of("{")
    };
    crate::text::extend_chars(&mut r, key);
    crate::text::extend_chars(&mut r, chars_of("}").as_slice());
    r
}

/// Substitute parameters into a target template.
pub fn substitute(template: &str, params: &Vec<(String, String)>) -> (r: String)
    ensures
        r@ == substitute_params(template@, params@.map_values(|p: (String, String)| (p.0@, p.1@))),
{
    let ghost ps = params@.map_values(|p: (String, String)| (p.0@, p.1@));
    let mut cur = chars_of(template);
    let n = params.len();
    assert(ps.skip(0) =~= ps);
    for i in 0..n
        invariant
            n == params@.len(),
            ps == params@.map_values(|p: (String, String)| (p.0@, p.1@)),
            substitute_params(template@, ps) == substitute_params(cur@, ps.skip(i as int)),
    {
        proof {
            lemma_substitute_skip(template@, cur@, ps, i as int);
        }
        let key = chars_of(params[i].0.as_str());
        let value = chars_of(params[i].1.as_str());
        assert(ps[i as int] == (key@, value@));
        let p1 = placeholder_chars(key.as_slice(), false);
        let p2 = placeholder_chars(key.as_slice(), true);
        let step1 = replace_all_chars(cur.as_slice(), p1.as_slice(), value.as_slice());
        cur = replace_all_chars(step1.as_slice(), p2.as_slice(), value.as_slice());
    }
    assert(ps.skip(n as int) =~= Seq::<(Seq<char>, Seq<char>)>::empty());
    string_of(cur.as_slice())
}

/// A router that matches URL paths to target templates with parameter
/// substitution:
/// - `/ssh/{host}` matches `/ssh/myserver` with `host=myserver`
/// - `/files/{*path}` matches `/files/a/b/c` with `path=a/b/c`
///
/// Pattern `/ssh/{host}` with target `{host}:22` resolves `/ssh/myserver`
/// to `myserver:22`.
pub struct Router {
    inner: MatchTable,
    count: usize,
}

/// The mathematical value of a [`Router`].
pub struct RouterView {
    /// Every insertion the router was given, accepted or refused.
    pub insertions: Seq<(Seq<char>, Seq<char>)>,
    /// The accepted routes, in order.
    pub routes: Seq<(Seq<char>, Seq<char>)>,
    /// How many routes were inserted with success.
    pub count: nat,
}

impl View for Router {
    type V = RouterView;

    closed spec fn view(&self) -> RouterView {
        RouterView {
            insertions: matchit_insertions(self.inner),
            routes: accepted_routes(matchit_insertions(self.inner)),
            count: self.count as nat,
        }
    }
}

/// What a first lookup of a path decides.
#[derive(Clone, Debug)]
pub enum Lookup {
    /// The path matched: this is the target, parameters substituted.
    Target(String),
    /// No match: look the path up again without its trailing `/`.
    Retry(String),
    /// No match, and the path has no trailing `/`.
    Miss,
}

/// Decides after looking a path up: a match gives its target with the
/// parameters substituted; without one, the path is looked up again without
/// its trailing `/` when it has any, else nothing matches.
pub fn after_lookup(found: Option<(String, Vec<(String, String)>)>, path: &str) -> (r: Lookup)
    ensures
        match found {
            Some((t, ps)) => r matches Lookup::Target(x) && x@ == substitute_params(
                t@,
                ps@.map_values(|p: (String, String)| (p.0@, p.1@)),
            ),
            None => if trim_end(path@, '/') != path@ {
                r matches Lookup::Retry(n) && n@ == trim_end(path@, '/')
            } else {
                r is Miss
            },
        },
{
    match found {
        Some((t, ps)) => Lookup::Target(substitute(t.as_str(), &ps)),
        None => {
            let p = chars_of(path);
            let n = trim_end_chars(p.as_slice(), '/');
            if n.len() != p.len() {
                Lookup::Retry(string_of(n.as_slice()))
            } else {
                proof {
                    lemma_trim_len(p@);
                    if n@.len() == p@.len() {
                        assert(n@ =~= p@);
                    }
                }
                Lookup::Miss
            }
        },
    }
}

/// The target of a second lookup: the match's target with its parameters
/// substituted, or nothing.
pub fn after_retry(found: Option<(String, Vec<(String, String)>)>) -> (r: Option<String>)
    ensures
        match found {
            Some((t, ps)) => r matches Some(x) && x@ == substitute_params(
                t@,
                ps@.map_values(|p: (String, String)| (p.0@, p.1@)),
            ),
            None => r is None,
        },
{
    match found {
        Some((t, ps)) => Some(substitute(t.as_str(), &ps)),
        None => None,
    }
}

impl Router {
    /// Create a new empty router.
    pub fn new() -> (r: Router)
        ensures
            r@.insertions == Seq::<(Seq<char>, Seq<char>)>::empty(),
            r@.routes == Seq::<(Seq<char>, Seq<char>)>::empty(),
            r@.count == 0,
    {
        Router { inner: matchit_new(), count: 0 }
    }

    /// Insert a route with a pattern and target template.
    ///
    /// On success the route is added and counted; a pattern the matcher
    /// refuses gives a configuration error that names the pattern and
    /// gives the matcher's message, and the routes stay as they were. A
    /// non-empty pattern already routed is refused.
    pub fn insert(&mut self, pattern: &str, target: &str) -> (r: Result<(), Error>)
        requires
            old(self)@.count < usize::MAX,
        ensures
            final(self)@.insertions == old(self)@.insertions.push((pattern@, target@)),
            match matchit_refusal(old(self)@.insertions, pattern@) {
                None => r is Ok && final(self)@.count == old(self)@.count + 1 && final(self)@.routes == old(
                    self,
                )@.routes.push((pattern@, target@)) && (pattern@.len() > 0 ==> lookup_key(
                    old(self)@.routes,
                    pattern@,
                ) is None),
                Some(t) => r matches Err(e) && e@ == ErrorView::Config(
                    "invalid route pattern '"@ + pattern@ + "': "@ + t,
                ) && final(self)@.count == old(self)@.count && final(self)@.routes == old(self)@.routes,
            },
    {
        let ghost before = self@.insertions;
        let res = matchit_insert(&mut self.inner, pattern.to_owned(), target.to_owned());
        proof {
            assert(self@.insertions.drop_last() =~= before);
        }
        match res {
            Ok(()) => {
                self.count = self.count + 1;
                Ok(())
            },
            Err(t) => {
                let m = join4("invalid route pattern '", pattern, "': ", t.as_str());
                Err(Error::config(m.as_str()))
            },
        }
    }

    /// Match a path and return the resolved target string; `None` if no
    /// route matches. A non-empty static route gives back its target at its
    /// own path.
    pub fn resolve(&self, path: &str) -> (r: Option<String>)
        ensures
            match r {
                Some(t) => resolve_path(self@.insertions, path@) == Some(t@),
                None => resolve_path(self@.insertions, path@) is None,
            },
            is_static(path@) && path@.len() > 0 && lookup_key(self@.routes, path@) is Some ==> r is Some
                && Some(r->Some_0@) == lookup_key(self@.routes, path@),
    {
        match after_lookup(matchit_lookup(&self.inner, path), path) {
            Lookup::Target(t) => Some(t),
            Lookup::Retry(n) => after_retry(matchit_lookup(&self.inner, n.as_str())),
            Lookup::Miss => None,
        }
    }

    /// Check if the router has any routes.
    pub fn is_empty(&self) -> (r: bool)
        ensures
            r == (self@.count == 0),
    {
        self.count == 0
    }
}

impl Default for Router {
    fn default() -> (r: Router)
        ensures
            r@.insertions == Seq::<(Seq<char>, Seq<char>)>::empty(),
            r@.routes == Seq::<(Seq<char>, Seq<char>)>::empty(),
            r@.count == 0,
    {
        Router::new()
    }
}

/// A route that the router holds keeps its target when another route is
/// added after it.
pub proof fn lemma_route_kept(routes: Seq<(Seq<char>, Seq<char>)>, path: Seq<char>, added: (Seq<char>, Seq<char>))
    requires
        lookup_key(routes, path) is Some,
    ensures
        lookup_key(routes.push(added), path) == lookup_key(routes, path),
    decreases routes.len(),
{
    if routes[0].0 != path {
        assert(routes.push(added).drop_first() =~= routes.drop_first().push(added));
        lemma_route_kept(routes.drop_first(), path, added);
    }
}

proof fn lemma_trim_len(s: Seq<char>)
    ensures
        trim_end(s, '/').len() <= s.len(),
        trim_end(s, '/').len() == s.len() ==> trim_end(s, '/') == s,
        trim_end(s, '/') == s.take(trim_end(s, '/').len() as int),
    decreases s.len(),
{
    if s.len() > 0 && s.last() == '/' {
        lemma_trim_len(s.drop_last());
        assert(s.drop_last().take(trim_end(s, '/').len() as int) =~= s.take(trim_end(s, '/').len() as int));
    } else {
        assert(s.take(s.len() as int) =~= s);
    }
}

} // verus!
