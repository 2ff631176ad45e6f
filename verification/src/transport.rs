//! What the HTTP transport decides at boot, before anything is mounted: which
//! path each controller, route and self-mount owns, which of them collide,
//! which carry a version, which access decisions were left implicit, and
//! whether the configuration can be served at all.
//!
//! A collision poem would only report as a panic deep in route assembly is
//! refused here, naming both claimants.
use vstd::prelude::*;

use crate::controller::{implicit_spec, mounted_spec, serves_spec, strs, verb_name, HttpControllerMeta, HttpRouteMeta};
use crate::endpoint::{EdgePosture, HttpEndpointMeta};
use crate::lexical::strictly_sorted;
use crate::paths::{join_path, join_spec, str_eq, version_path, version_spec};
use crate::text::{debug_quoted, debug_str, join_strings, join_with, push_str};
use crate::versioning::{all_versions, declared_versions, texts, ApiVersioning, VersionSelector};

verus! {

/// The kind of path a controller claims.
pub const PREFIX_KIND: &'static str = "controller prefix";

/// The kind of path a self-mounted endpoint claims.
pub const SELF_MOUNT_KIND: &'static str = "self-mounted endpoint path";

/// The remedy when two owners claim one path by accident.
pub const DISTINCT_PATH: &'static str = "give each one a distinct path";

/// The environment variable naming the default API version.
pub const DEFAULT_VERSION_VAR: &'static str = "NESTRS_HTTP__DEFAULT_VERSION";

/// The environment variable that opts out of the fail-secure boot check.
pub const FAIL_SECURE_VAR: &'static str = "NESTRS_HTTP__FAIL_SECURE_STRICT";

/// Path owners, as (path, owner) texts in the order they were claimed.
pub open spec fn pairs(v: Seq<(String, String)>) -> Seq<(Seq<char>, Seq<char>)> {
    v.map_values(|p: (String, String)| (p.0@, p.1@))
}

/// Who owns `path`: the owner of its latest claim, if any.
pub open spec fn owner_of(owners: Seq<(Seq<char>, Seq<char>)>, path: Seq<char>) -> Option<Seq<char>>
    decreases owners.len(),
{
    if owners.len() == 0 {
        None
    } else if owners.last().0 == path {
        Some(owners.last().1)
    } else {
        owner_of(owners.drop_last(), path)
    }
}

/// What to say when two controllers claim one mount prefix.
pub open spec fn remedy_spec(version: Option<Seq<char>>) -> Seq<char> {
    match version {
        Some(v) => "both declare version "@ + debug_str(v)
            + " at that path — drop it from one of the two `#[controller(version = …)]` lists"@,
        None => DISTINCT_PATH@,
    }
}

/// The refusal of a second claim on an exclusive path.
pub open spec fn claim_message(
    kind: Seq<char>,
    path: Seq<char>,
    first: Seq<char>,
    owner: Seq<char>,
    remedy: Seq<char>,
) -> Seq<char> {
    "duplicate "@ + kind + " "@ + debug_str(path) + ": "@ + first + " and "@ + owner
        + " both mount there — a "@ + kind + " is its exclusive namespace; "@ + remedy
}

/// Claim `path` for `owner`: refused, naming both, if someone holds it.
pub open spec fn claim_spec(
    owners: Seq<(Seq<char>, Seq<char>)>,
    kind: Seq<char>,
    path: Seq<char>,
    owner: Seq<char>,
    remedy: Seq<char>,
) -> Result<Seq<(Seq<char>, Seq<char>)>, Seq<char>> {
    match owner_of(owners, path) {
        Some(first) => Err(claim_message(kind, path, first, owner, remedy)),
        None => Ok(owners.push((path, owner))),
    }
}

/// The refusal of two controllers mounting one full route path.
pub open spec fn route_message(path: Seq<char>, first: Seq<char>, second: Seq<char>) -> Seq<char> {
    "duplicate route path "@ + debug_str(path) + ": "@ + first + " and "@ + second
        + " both mount there — give each controller route a distinct full path"@
}

/// How an implicitly-accessible route is listed: `GET /users (list)`.
pub open spec fn route_entry(verb: Seq<char>, path: Seq<char>, handler: Seq<char>) -> Seq<char> {
    verb + " "@ + path + " ("@ + handler + ")"@
}

/// How an implicitly-accessible self-mount edge is listed: `/ws (ws)`.
pub open spec fn edge_entry(path: Seq<char>, label: Seq<char>) -> Seq<char> {
    path + " ("@ + label + ")"@
}

/// The refusal of a self-mount on a path a controller holds.
pub open spec fn taken_message(path: Seq<char>, first: Seq<char>, label: Seq<char>) -> Seq<char> {
    "duplicate mount path "@ + debug_str(path) + ": controller "@ + first + " and the "@ + label
        + " endpoint both mount there — a mount path is its owner's exclusive namespace; give each one a distinct path"@
}

/// The refusal of a default version that nothing declares.
pub open spec fn default_message(default: Seq<char>, declared: Seq<Seq<char>>) -> Seq<char> {
    if declared.len() == 0 {
        DEFAULT_VERSION_VAR@ + " names API version "@ + debug_str(default)
            + ", and no controller declares a version at all — declare it with #[controller(version = "@
            + debug_str(default) + ")] or unset "@ + DEFAULT_VERSION_VAR@
    } else {
        DEFAULT_VERSION_VAR@ + " names API version "@ + debug_str(default)
            + ", which no controller declares — the versions mounted are "@ + join_with(declared, ", "@)
            + "; name one of those or unset "@ + DEFAULT_VERSION_VAR@
    }
}

/// The refusal of imperative mounts that would bypass the global guards.
pub open spec fn fail_secure_message(paths: Seq<Seq<char>>) -> Seq<char> {
    "fail-secure: imperative mount(...) endpoints bypass the global guard pool: "@ + join_with(paths, ", "@)
        + " — route them through a #[controller], guard them explicitly, or opt out with HttpTransport::fail_secure_strict(false) / "@
        + FAIL_SECURE_VAR@ + "=false"@
}

/// What the controller pass has collected so far.
pub struct ClaimsView {
    pub prefixes: Seq<(Seq<char>, Seq<char>)>,
    pub routes: Seq<(Seq<char>, Seq<char>)>,
    pub versioned: Seq<Seq<char>>,
    pub unversioned: Seq<Seq<char>>,
    pub unguarded: Seq<Seq<char>>,
}

/// Nothing claimed yet.
pub open spec fn no_claims() -> ClaimsView {
    ClaimsView {
        prefixes: Seq::empty(),
        routes: Seq::empty(),
        versioned: Seq::empty(),
        unversioned: Seq::empty(),
        unguarded: Seq::empty(),
    }
}

/// One route of controller `c`, mounted under `version` at `prefix`.
pub open spec fn route_step(
    st: ClaimsView,
    c: HttpControllerMeta,
    version: Option<Seq<char>>,
    prefix: Seq<char>,
    r: HttpRouteMeta,
    global_guards: bool,
) -> Result<ClaimsView, Seq<char>> {
    if !serves_spec(strs(r.versions@), version) {
        Ok(st)
    } else {
        let path = join_spec(prefix, r.path@);
        let versioned = if version is Some { st.versioned.push(path) } else { st.versioned };
        let unversioned = if version is Some { st.unversioned } else { st.unversioned.push(path) };
        let unguarded = if implicit_spec(global_guards, r.scoped_guarded, r.public) {
            st.unguarded.push(route_entry(verb_name(r.verb), path, r.handler@))
        } else {
            st.unguarded
        };
        match owner_of(st.routes, path) {
            Some(first) => if first != c.controller@ {
                Err(route_message(path, first, c.controller@))
            } else {
                Ok(ClaimsView { versioned, unversioned, unguarded, ..st })
            },
            None => Ok(
                ClaimsView {
                    routes: st.routes.push((path, c.controller@)),
                    versioned,
                    unversioned,
                    unguarded,
                    ..st
                },
            ),
        }
    }
}

/// The routes `rs` of `c`, one after the other; the first refusal stands.
pub open spec fn routes_fold(
    st: Result<ClaimsView, Seq<char>>,
    c: HttpControllerMeta,
    version: Option<Seq<char>>,
    prefix: Seq<char>,
    rs: Seq<HttpRouteMeta>,
    global_guards: bool,
) -> Result<ClaimsView, Seq<char>>
    decreases rs.len(),
{
    if rs.len() == 0 {
        st
    } else {
        match routes_fold(st, c, version, prefix, rs.drop_last(), global_guards) {
            Err(m) => Err(m),
            Ok(s) => route_step(s, c, version, prefix, rs.last(), global_guards),
        }
    }
}

/// Controller `c` mounted under each of `vs`: its prefix claimed, then its
/// routes.
pub open spec fn versions_fold(
    st: Result<ClaimsView, Seq<char>>,
    c: HttpControllerMeta,
    vs: Seq<Option<Seq<char>>>,
    global_guards: bool,
) -> Result<ClaimsView, Seq<char>>
    decreases vs.len(),
{
    if vs.len() == 0 {
        st
    } else {
        match versions_fold(st, c, vs.drop_last(), global_guards) {
            Err(m) => Err(m),
            Ok(s) => {
                let v = vs.last();
                let prefix = version_spec(v, c.path@);
                match claim_spec(s.prefixes, PREFIX_KIND@, prefix, c.controller@, remedy_spec(v)) {
                    Err(m) => Err(m),
                    Ok(ps) => routes_fold(
                        Ok(ClaimsView { prefixes: ps, ..s }),
                        c,
                        v,
                        prefix,
                        c.routes@,
                        global_guards,
                    ),
                }
            },
        }
    }
}

/// Every controller of `cs`, in discovery order.
pub open spec fn controllers_fold(
    st: Result<ClaimsView, Seq<char>>,
    cs: Seq<HttpControllerMeta>,
    global_guards: bool,
) -> Result<ClaimsView, Seq<char>>
    decreases cs.len(),
{
    if cs.len() == 0 {
        st
    } else {
        versions_fold(
            controllers_fold(st, cs.drop_last(), global_guards),
            cs.last(),
            mounted_spec(strs(cs.last().versions@)),
            global_guards,
        )
    }
}

/// What the self-mount pass has collected so far.
pub struct EdgesView {
    pub owners: Seq<(Seq<char>, Seq<char>)>,
    pub self_mounts: Seq<Seq<char>>,
    pub unguarded_edges: Seq<Seq<char>>,
}

/// One self-mount, against the controller claims `prefixes` and `routes`.
pub open spec fn edge_step(
    st: EdgesView,
    prefixes: Seq<(Seq<char>, Seq<char>)>,
    routes: Seq<(Seq<char>, Seq<char>)>,
    e: HttpEndpointMeta,
    global_guards: bool,
) -> Result<EdgesView, Seq<char>> {
    let path = e.path_view();
    let label = e.label_view();
    let taken = match owner_of(prefixes, path) {
        Some(first) => Some(first),
        None => owner_of(routes, path),
    };
    match taken {
        Some(first) => Err(taken_message(path, first, label)),
        None => match claim_spec(st.owners, SELF_MOUNT_KIND@, path, label + " endpoint"@, DISTINCT_PATH@) {
            Err(m) => Err(m),
            Ok(owners) => Ok(
                EdgesView {
                    owners,
                    self_mounts: st.self_mounts.push(path),
                    unguarded_edges: if !global_guards && e.posture_view() == EdgePosture::Guarded {
                        st.unguarded_edges.push(edge_entry(path, label))
                    } else {
                        st.unguarded_edges
                    },
                },
            ),
        },
    }
}

/// Every self-mount of `es`, in discovery order.
pub open spec fn edges_fold(
    st: Result<EdgesView, Seq<char>>,
    prefixes: Seq<(Seq<char>, Seq<char>)>,
    routes: Seq<(Seq<char>, Seq<char>)>,
    es: Seq<HttpEndpointMeta>,
    global_guards: bool,
) -> Result<EdgesView, Seq<char>>
    decreases es.len(),
{
    if es.len() == 0 {
        st
    } else {
        match edges_fold(st, prefixes, routes, es.drop_last(), global_guards) {
            Err(m) => Err(m),
            Ok(s) => edge_step(s, prefixes, routes, es.last(), global_guards),
        }
    }
}

/// The declared versions, ascending, each once.
pub open spec fn sorted_versions(cs: Seq<HttpControllerMeta>) -> Seq<Seq<char>> {
    choose|s: Seq<Seq<char>>|
        strictly_sorted(s) && forall|x: Seq<char>| #[trigger] s.contains(x) <==> all_versions(cs).contains(x)
}

/// The boot plan as plain values.
pub struct PlanView {
    pub versioned_routes: Seq<Seq<char>>,
    pub self_mounts: Seq<Seq<char>>,
    pub unversioned_routes: Seq<Seq<char>>,
    pub declared_versions: Seq<Seq<char>>,
    pub unguarded_routes: Seq<Seq<char>>,
    pub unguarded_edges: Seq<Seq<char>>,
    pub bypassing_mounts: Seq<Seq<char>>,
}

/// The whole boot decision: the controllers, then the default version, then
/// the self-mounts, then the imperative mounts.
pub open spec fn plan_spec(
    cs: Seq<HttpControllerMeta>,
    es: Seq<HttpEndpointMeta>,
    mounts: Seq<Seq<char>>,
    global_guards: bool,
    strict: bool,
    rewriting_default: Option<Seq<char>>,
) -> Result<PlanView, Seq<char>> {
    match controllers_fold(Ok(no_claims()), cs, global_guards) {
        Err(m) => Err(m),
        Ok(c) => {
            if rewriting_default is Some && !all_versions(cs).contains(rewriting_default->0) {
                Err(default_message(rewriting_default->0, sorted_versions(cs)))
            } else {
                match edges_fold(
                    Ok(EdgesView { owners: Seq::empty(), self_mounts: Seq::empty(), unguarded_edges: Seq::empty() }),
                    c.prefixes,
                    c.routes,
                    es,
                    global_guards,
                ) {
                    Err(m) => Err(m),
                    Ok(e) => {
                        let bypass = mounts.len() > 0 && global_guards;
                        if bypass && strict {
                            Err(fail_secure_message(mounts))
                        } else {
                            Ok(
                                PlanView {
                                    versioned_routes: c.versioned,
                                    self_mounts: e.self_mounts,
                                    unversioned_routes: c.unversioned,
                                    declared_versions: sorted_versions(cs),
                                    unguarded_routes: c.unguarded,
                                    unguarded_edges: e.unguarded_edges,
                                    bypassing_mounts: if bypass { mounts } else { Seq::empty() },
                                },
                            )
                        }
                    },
                }
            }
        },
    }
}

/// The text of an optional string slice.
pub open spec fn version_text(v: Option<&str>) -> Option<Seq<char>> {
    match v {
        Some(s) => Some(s@),
        None => None,
    }
}

/// The default version a rewriting selector falls back to; `None` for no
/// selector, or for the URI strategy, which routing resolves by itself.
pub open spec fn rewriting_default(selector: Option<&VersionSelector>) -> Option<Seq<char>> {
    match selector {
        Some(s) => if s@.strategy != ApiVersioning::Uri {
            s@.default_version
        } else {
            None
        },
        None => None,
    }
}

/// The index of the latest claim on `path`, if any.
fn owner_index(owners: &Vec<(String, String)>, path: &str) -> (r: Option<usize>)
    ensures
        match r {
            Some(k) => k < owners@.len() && owner_of(pairs(owners@), path@) == Some(owners@[k as int].1@),
            None => owner_of(pairs(owners@), path@) is None,
        },
{
    let ghost ps = pairs(owners@);
    let mut found: Option<usize> = None;
    let mut i: usize = 0;
    while i < owners.len()
        invariant
            i <= owners.len(),
            ps == pairs(owners@),
            match found {
                Some(k) => k < i && owner_of(ps.take(i as int), path@) == Some(owners@[k as int].1@),
                None => owner_of(ps.take(i as int), path@) is None,
            },
        decreases owners.len() - i,
    {
        assert(ps.take(i + 1).drop_last() == ps.take(i as int));
        if str_eq(owners[i].0.as_str(), path) {
            found = Some(i);
        }
        i = i + 1;
    }
    assert(ps.take(owners.len() as int) == ps);
    found
}

/// What to do about two controllers claiming one mount prefix: two versions
/// of one resource share a path by design, so the remedy names the version.
pub fn prefix_remedy(version: Option<&str>) -> (r: String)
    ensures
        r@ == remedy_spec(version_text(version)),
{
    match version {
        Some(v) => {
            let mut s = "both declare version ".to_owned();
            let q = debug_quoted(v);
            push_str(&mut s, q.as_str());
            push_str(
                &mut s,
                " at that path — drop it from one of the two `#[controller(version = …)]` lists",
            );
            s
        },
        None => DISTINCT_PATH.to_owned(),
    }
}

/// Claim `path` for `owner`, or fail naming both claimants.
fn claim_exclusive_path(
    owners: &mut Vec<(String, String)>,
    kind: &str,
    path: String,
    owner: String,
    remedy: &str,
) -> (r: Result<(), String>)
    ensures
        match r {
            Ok(()) => claim_spec(pairs(old(owners)@), kind@, path@, owner@, remedy@)
                == Ok::<Seq<(Seq<char>, Seq<char>)>, Seq<char>>(pairs(final(owners)@)),
            Err(e) => claim_spec(pairs(old(owners)@), kind@, path@, owner@, remedy@)
                == Err::<Seq<(Seq<char>, Seq<char>)>, Seq<char>>(e@),
        },
{
    match owner_index(owners, path.as_str()) {
        Some(k) => {
            let mut m = "duplicate ".to_owned();
            push_str(&mut m, kind);
            push_str(&mut m, " ");
            let q = debug_quoted(path.as_str());
            push_str(&mut m, q.as_str());
            push_str(&mut m, ": ");
            push_str(&mut m, owners[k].1.as_str());
            push_str(&mut m, " and ");
            push_str(&mut m, owner.as_str());
            push_str(&mut m, " both mount there — a ");
            push_str(&mut m, kind);
            push_str(&mut m, " is its exclusive namespace; ");
            push_str(&mut m, remedy);
            Err(m)
        },
        None => {
            let ghost before = pairs(owners@);
            owners.push((path, owner));
            assert(pairs(owners@) == before.push((path@, owner@)));
            Ok(())
        },
    }
}

/// The controller pass's running state.
struct Claims {
    prefixes: Vec<(String, String)>,
    routes: Vec<(String, String)>,
    versioned: Vec<String>,
    unversioned: Vec<String>,
    unguarded: Vec<String>,
}

spec fn claims_view(c: &Claims) -> ClaimsView {
    ClaimsView {
        prefixes: pairs(c.prefixes@),
        routes: pairs(c.routes@),
        versioned: texts(c.versioned@),
        unversioned: texts(c.unversioned@),
        unguarded: texts(c.unguarded@),
    }
}

/// `verb path (handler)`.
fn route_entry_exec(r: &HttpRouteMeta, path: &str) -> (s: String)
    ensures
        s@ == route_entry(verb_name(r.verb), path@, r.handler@),
{
    let mut s = r.verb.as_str().to_owned();
    push_str(&mut s, " ");
    push_str(&mut s, path);
    push_str(&mut s, " (");
    push_str(&mut s, r.handler);
    push_str(&mut s, ")");
    s
}

/// One route of `c`, mounted under `version` at `prefix`.
fn claim_route(
    st: &mut Claims,
    c: &HttpControllerMeta,
    version: Option<&str>,
    prefix: &str,
    r: &HttpRouteMeta,
    global_guards: bool,
) -> (res: Result<(), String>)
    ensures
        match res {
            Ok(()) => route_step(claims_view(old(st)), *c, version_text(version), prefix@, *r, global_guards)
                == Ok::<ClaimsView, Seq<char>>(claims_view(final(st))),
            Err(e) => route_step(claims_view(old(st)), *c, version_text(version), prefix@, *r, global_guards)
                == Err::<ClaimsView, Seq<char>>(e@),
        },
{
    if !HttpControllerMeta::serves(r, version) {
        return Ok(());
    }
    let path = join_path(prefix, r.path);
    let idx = owner_index(&st.routes, path.as_str());
    if let Some(k) = idx {
        if !str_eq(st.routes[k].1.as_str(), c.controller) {
            let mut m = "duplicate route path ".to_owned();
            let q = debug_quoted(path.as_str());
            push_str(&mut m, q.as_str());
            push_str(&mut m, ": ");
            push_str(&mut m, st.routes[k].1.as_str());
            push_str(&mut m, " and ");
            push_str(&mut m, c.controller);
            push_str(&mut m, " both mount there — give each controller route a distinct full path");
            return Err(m);
        }
    }
    let ghost s0 = claims_view(st);
    if version.is_some() {
        st.versioned.push(path.clone());
        assert(texts(st.versioned@) == s0.versioned.push(path@));
    } else {
        st.unversioned.push(path.clone());
        assert(texts(st.unversioned@) == s0.unversioned.push(path@));
    }
    if r.access_is_implicit(global_guards) {
        let entry = route_entry_exec(r, path.as_str());
        st.unguarded.push(entry);
        assert(texts(st.unguarded@) == s0.unguarded.push(route_entry(verb_name(r.verb), path@, r.handler@)));
    }
    if idx.is_none() {
        st.routes.push((path, c.controller.to_owned()));
        assert(pairs(st.routes@) == s0.routes.push((join_spec(prefix@, r.path@), c.controller@)));
    }
    Ok(())
}

proof fn lemma_routes_fold_err(
    m: Seq<char>,
    c: HttpControllerMeta,
    v: Option<Seq<char>>,
    p: Seq<char>,
    rs: Seq<HttpRouteMeta>,
    gg: bool,
)
    ensures
        routes_fold(Err(m), c, v, p, rs, gg) == Err::<ClaimsView, Seq<char>>(m),
    decreases rs.len(),
{
    if rs.len() > 0 {
        lemma_routes_fold_err(m, c, v, p, rs.drop_last(), gg);
    }
}

proof fn lemma_routes_fold_sticks(
    st: Result<ClaimsView, Seq<char>>,
    c: HttpControllerMeta,
    v: Option<Seq<char>>,
    p: Seq<char>,
    rs: Seq<HttpRouteMeta>,
    k: int,
    gg: bool,
)
    requires
        0 <= k <= rs.len(),
        routes_fold(st, c, v, p, rs.take(k), gg) is Err,
    ensures
        routes_fold(st, c, v, p, rs, gg) == routes_fold(st, c, v, p, rs.take(k), gg),
    decreases rs.len(),
{
    if k == rs.len() {
        assert(rs.take(k) == rs);
    } else {
        assert(rs.drop_last().take(k) == rs.take(k));
        lemma_routes_fold_sticks(st, c, v, p, rs.drop_last(), k, gg);
    }
}

/// Every route of `c` under `version`.
fn claim_routes(
    st: &mut Claims,
    c: &HttpControllerMeta,
    version: Option<&str>,
    prefix: &str,
    global_guards: bool,
) -> (res: Result<(), String>)
    ensures
        match res {
            Ok(()) => routes_fold(Ok(claims_view(old(st))), *c, version_text(version), prefix@, c.routes@, global_guards)
                == Ok::<ClaimsView, Seq<char>>(claims_view(final(st))),
            Err(e) => routes_fold(Ok(claims_view(old(st))), *c, version_text(version), prefix@, c.routes@, global_guards)
                == Err::<ClaimsView, Seq<char>>(e@),
        },
{
    let ghost s0 = claims_view(st);
    let ghost v = version_text(version);
    let mut k: usize = 0;
    while k < c.routes.len()
        invariant
            k <= c.routes.len(),
            v == version_text(version),
            s0 == claims_view(old(st)),
            routes_fold(Ok(s0), *c, v, prefix@, c.routes@.take(k as int), global_guards)
                == Ok::<ClaimsView, Seq<char>>(claims_view(st)),
        decreases c.routes.len() - k,
    {
        let ghost before = claims_view(st);
        assert(c.routes@.take(k + 1).drop_last() == c.routes@.take(k as int));
        assert(c.routes@.take(k + 1).last() == c.routes@[k as int]);
        let step = claim_route(st, c, version, prefix, &c.routes[k], global_guards);
        match step {
            Ok(()) => {},
            Err(e) => {
                assert(routes_fold(Ok(s0), *c, v, prefix@, c.routes@.take(k + 1), global_guards)
                    == Err::<ClaimsView, Seq<char>>(e@));
                proof {
                    lemma_routes_fold_sticks(Ok(s0), *c, v, prefix@, c.routes@, k + 1, global_guards);
                }
                return Err(e);
            },
        }
        k = k + 1;
    }
    assert(c.routes@.take(c.routes.len() as int) == c.routes@);
    Ok(())
}

proof fn lemma_versions_fold_err(m: Seq<char>, c: HttpControllerMeta, vs: Seq<Option<Seq<char>>>, gg: bool)
    ensures
        versions_fold(Err(m), c, vs, gg) == Err::<ClaimsView, Seq<char>>(m),
    decreases vs.len(),
{
    if vs.len() > 0 {
        lemma_versions_fold_err(m, c, vs.drop_last(), gg);
    }
}

proof fn lemma_versions_fold_sticks(
    st: Result<ClaimsView, Seq<char>>,
    c: HttpControllerMeta,
    vs: Seq<Option<Seq<char>>>,
    k: int,
    gg: bool,
)
    requires
        0 <= k <= vs.len(),
        versions_fold(st, c, vs.take(k), gg) is Err,
    ensures
        versions_fold(st, c, vs, gg) == versions_fold(st, c, vs.take(k), gg),
    decreases vs.len(),
{
    if k == vs.len() {
        assert(vs.take(k) == vs);
    } else {
        assert(vs.drop_last().take(k) == vs.take(k));
        lemma_versions_fold_sticks(st, c, vs.drop_last(), k, gg);
    }
}

/// Controller `c` under every version it mounts.
fn mount_controller(st: &mut Claims, c: &HttpControllerMeta, global_guards: bool) -> (res: Result<(), String>)
    ensures
        match res {
            Ok(()) => versions_fold(Ok(claims_view(old(st))), *c, mounted_spec(strs(c.versions@)), global_guards)
                == Ok::<ClaimsView, Seq<char>>(claims_view(final(st))),
            Err(e) => versions_fold(Ok(claims_view(old(st))), *c, mounted_spec(strs(c.versions@)), global_guards)
                == Err::<ClaimsView, Seq<char>>(e@),
        },
{
    let ghost s0 = claims_view(st);
    let ghost mv = mounted_spec(strs(c.versions@));
    let vs = c.mounted_versions();
    assert(vs@.len() == mv.len());
    assert forall|j: int| 0 <= j < vs@.len() implies version_text(#[trigger] vs@[j]) == mv[j] by {
        assert(vs@.map_values(|v: Option<&'static str>| crate::controller::opt_text(v))[j] == mv[j]);
    }
    let mut j: usize = 0;
    while j < vs.len()
        invariant
            j <= vs.len(),
            s0 == claims_view(old(st)),
            vs@.len() == mv.len(),
            mv == mounted_spec(strs(c.versions@)),
            forall|i: int| 0 <= i < vs@.len() ==> version_text(#[trigger] vs@[i]) == mv[i],
            versions_fold(Ok(s0), *c, mv.take(j as int), global_guards) == Ok::<ClaimsView, Seq<char>>(claims_view(st)),
        decreases vs.len() - j,
    {
        let version = vs[j];
        assert(version_text(version) == mv[j as int]);
        assert(mv.take(j + 1).drop_last() == mv.take(j as int));
        assert(mv.take(j + 1).last() == mv[j as int]);
        let prefix = c.effective_prefix(version);
        let remedy = prefix_remedy(version);
        let ghost before = claims_view(st);
        let claimed = claim_exclusive_path(
            &mut st.prefixes,
            PREFIX_KIND,
            prefix.clone(),
            c.controller.to_owned(),
            remedy.as_str(),
        );
        if let Err(e) = claimed {
            assert(versions_fold(Ok(s0), *c, mv.take(j + 1), global_guards) == Err::<ClaimsView, Seq<char>>(e@));
            proof {
                lemma_versions_fold_sticks(Ok(s0), *c, mv, j + 1, global_guards);
            }
            return Err(e);
        }
        assert(claims_view(st) == ClaimsView { prefixes: claims_view(st).prefixes, ..before });
        let routed = claim_routes(st, c, version, prefix.as_str(), global_guards);
        if let Err(e) = routed {
            assert(versions_fold(Ok(s0), *c, mv.take(j + 1), global_guards) == Err::<ClaimsView, Seq<char>>(e@));
            proof {
                lemma_versions_fold_sticks(Ok(s0), *c, mv, j + 1, global_guards);
            }
            return Err(e);
        }
        j = j + 1;
    }
    assert(mv.take(vs.len() as int) == mv);
    Ok(())
}

proof fn lemma_controllers_fold_sticks(
    st: Result<ClaimsView, Seq<char>>,
    cs: Seq<HttpControllerMeta>,
    k: int,
    gg: bool,
)
    requires
        0 <= k <= cs.len(),
        controllers_fold(st, cs.take(k), gg) is Err,
    ensures
        controllers_fold(st, cs, gg) == controllers_fold(st, cs.take(k), gg),
    decreases cs.len(),
{
    if k == cs.len() {
        assert(cs.take(k) == cs);
    } else {
        assert(cs.drop_last().take(k) == cs.take(k));
        lemma_controllers_fold_sticks(st, cs.drop_last(), k, gg);
        let m = controllers_fold(st, cs.take(k), gg)->Err_0;
        lemma_versions_fold_err(m, cs.last(), mounted_spec(strs(cs.last().versions@)), gg);
    }
}

/// The self-mount pass's running state.
struct Edges {
    owners: Vec<(String, String)>,
    self_mounts: Vec<String>,
    unguarded_edges: Vec<String>,
}

spec fn edges_view(e: &Edges) -> EdgesView {
    EdgesView {
        owners: pairs(e.owners@),
        self_mounts: texts(e.self_mounts@),
        unguarded_edges: texts(e.unguarded_edges@),
    }
}

/// One self-mount, against the controller claims.
fn claim_edge(st: &mut Edges, claims: &Claims, e: &HttpEndpointMeta, global_guards: bool) -> (res: Result<(), String>)
    ensures
        match res {
            Ok(()) => edge_step(edges_view(old(st)), claims_view(claims).prefixes, claims_view(claims).routes, *e, global_guards)
                == Ok::<EdgesView, Seq<char>>(edges_view(final(st))),
            Err(m) => edge_step(edges_view(old(st)), claims_view(claims).prefixes, claims_view(claims).routes, *e, global_guards)
                == Err::<EdgesView, Seq<char>>(m@),
        },
{
    let path = e.path();
    let label = e.label();
    let first: Option<&str> = match owner_index(&claims.prefixes, path) {
        Some(k) => Some(claims.prefixes[k].1.as_str()),
        None => match owner_index(&claims.routes, path) {
            Some(k) => Some(claims.routes[k].1.as_str()),
            None => None,
        },
    };
    if let Some(first) = first {
        let mut m = "duplicate mount path ".to_owned();
        let q = debug_quoted(path);
        push_str(&mut m, q.as_str());
        push_str(&mut m, ": controller ");
        push_str(&mut m, first);
        push_str(&mut m, " and the ");
        push_str(&mut m, label);
        push_str(
            &mut m,
            " endpoint both mount there — a mount path is its owner's exclusive namespace; give each one a distinct path",
        );
        return Err(m);
    }
    let ghost s0 = edges_view(st);
    let mut owner = label.to_owned();
    push_str(&mut owner, " endpoint");
    let claimed = claim_exclusive_path(&mut st.owners, SELF_MOUNT_KIND, path.to_owned(), owner, DISTINCT_PATH);
    if let Err(m) = claimed {
        return Err(m);
    }
    st.self_mounts.push(path.to_owned());
    assert(texts(st.self_mounts@) == s0.self_mounts.push(path@));
    if e.edge_access_is_implicit(global_guards) {
        let mut entry = path.to_owned();
        push_str(&mut entry, " (");
        push_str(&mut entry, label);
        push_str(&mut entry, ")");
        st.unguarded_edges.push(entry);
        assert(texts(st.unguarded_edges@) == s0.unguarded_edges.push(edge_entry(path@, label@)));
    }
    Ok(())
}

proof fn lemma_edges_fold_sticks(
    st: Result<EdgesView, Seq<char>>,
    ps: Seq<(Seq<char>, Seq<char>)>,
    rs: Seq<(Seq<char>, Seq<char>)>,
    es: Seq<HttpEndpointMeta>,
    k: int,
    gg: bool,
)
    requires
        0 <= k <= es.len(),
        edges_fold(st, ps, rs, es.take(k), gg) is Err,
    ensures
        edges_fold(st, ps, rs, es, gg) == edges_fold(st, ps, rs, es.take(k), gg),
    decreases es.len(),
{
    if k == es.len() {
        assert(es.take(k) == es);
    } else {
        assert(es.drop_last().take(k) == es.take(k));
        lemma_edges_fold_sticks(st, ps, rs, es.drop_last(), k, gg);
    }
}

/// What the boot pass decided: the addresses the version selector learns,
/// the declared versions, and the access decisions left implicit.
#[derive(Debug)]
pub struct MountPlan {
    /// Every versioned route, as mounted (`/v1/posts/:id`).
    pub versioned_routes: Vec<String>,
    /// Every self-mounted path.
    pub self_mounts: Vec<String>,
    /// Every unversioned route.
    pub unversioned_routes: Vec<String>,
    /// The declared versions, ascending, each once.
    pub declared_versions: Vec<String>,
    /// `VERB path (handler)` of each route whose access decision is implicit.
    pub unguarded_routes: Vec<String>,
    /// `path (label)` of each guarded self-mount with no guard pool to run.
    pub unguarded_edges: Vec<String>,
    /// The imperative mounts that bypass an active global guard pool, when
    /// fail-secure is relaxed to a warning.
    pub bypassing_mounts: Vec<String>,
}

impl View for MountPlan {
    type V = PlanView;

    open spec fn view(&self) -> PlanView {
        PlanView {
            versioned_routes: texts(self.versioned_routes@),
            self_mounts: texts(self.self_mounts@),
            unversioned_routes: texts(self.unversioned_routes@),
            declared_versions: texts(self.declared_versions@),
            unguarded_routes: texts(self.unguarded_routes@),
            unguarded_edges: texts(self.unguarded_edges@),
            bypassing_mounts: texts(self.bypassing_mounts@),
        }
    }
}

/// Whether `v` is one of `list`.
fn contains_text(list: &Vec<String>, v: &str) -> (r: bool)
    ensures
        r == texts(list@).contains(v@),
{
    let ghost t = texts(list@);
    let mut i: usize = 0;
    while i < list.len()
        invariant
            i <= list.len(),
            t == texts(list@),
            forall|k: int| 0 <= k < i ==> t[k] != v@,
        decreases list.len() - i,
    {
        if str_eq(list[i].as_str(), v) {
            assert(t[i as int] == v@);
            return true;
        }
        i = i + 1;
    }
    false
}

/// Decide the boot: claim every controller prefix and route, check the
/// default version against what is declared, claim every self-mount, and
/// hold the imperative mounts to fail-secure. The first refusal, in that
/// order, is the boot error; its text names both claimants.
#[verifier::loop_isolation(false)]
pub fn plan_mounts(
    controllers: &[HttpControllerMeta],
    endpoints: &[HttpEndpointMeta],
    mounts: &Vec<String>,
    global_guards: bool,
    fail_secure_strict: bool,
    selector: Option<&VersionSelector>,
) -> (r: Result<MountPlan, String>)
    ensures
        match r {
            Ok(p) => plan_spec(controllers@, endpoints@, texts(mounts@), global_guards, fail_secure_strict, rewriting_default(selector))
                == Ok::<PlanView, Seq<char>>(p@),
            Err(e) => plan_spec(controllers@, endpoints@, texts(mounts@), global_guards, fail_secure_strict, rewriting_default(selector))
                == Err::<PlanView, Seq<char>>(e@),
        },
{
    let mut claims = Claims {
        prefixes: Vec::new(),
        routes: Vec::new(),
        versioned: Vec::new(),
        unversioned: Vec::new(),
        unguarded: Vec::new(),
    };
    assert(pairs(claims.prefixes@) =~= Seq::empty());
    assert(pairs(claims.routes@) =~= Seq::empty());
    assert(texts(claims.versioned@) =~= Seq::empty());
    assert(texts(claims.unversioned@) =~= Seq::empty());
    assert(texts(claims.unguarded@) =~= Seq::empty());
    assert(claims_view(&claims) == no_claims());
    let mut i: usize = 0;
    while i < controllers.len()
        invariant
            i <= controllers.len(),
            controllers_fold(Ok(no_claims()), controllers@.take(i as int), global_guards)
                == Ok::<ClaimsView, Seq<char>>(claims_view(&claims)),
        decreases controllers.len() - i,
    {
        assert(controllers@.take(i + 1).drop_last() == controllers@.take(i as int));
        assert(controllers@.take(i + 1).last() == controllers@[i as int]);
        let mounted = mount_controller(&mut claims, &controllers[i], global_guards);
        if let Err(e) = mounted {
            proof {
                lemma_controllers_fold_sticks(Ok(no_claims()), controllers@, i + 1, global_guards);
            }
            return Err(e);
        }
        i = i + 1;
    }
    assert(controllers@.take(controllers.len() as int) == controllers@);
    let declared = declared_versions(controllers);
    proof {
        let w = texts(declared@);
        assert(strictly_sorted(w) && forall|x: Seq<char>| #[trigger] w.contains(x) <==> all_versions(controllers@).contains(x));
        let s = sorted_versions(controllers@);
        crate::lexical::lemma_sorted_unique(w, s);
    }
    if let Some(sel) = selector {
        if sel.rewrites() {
            if let Some(default) = sel.default_version() {
                if !contains_text(&declared, default) {
                    let mut m = DEFAULT_VERSION_VAR.to_owned();
                    push_str(&mut m, " names API version ");
                    let q = debug_quoted(default);
                    push_str(&mut m, q.as_str());
                    if declared.len() == 0 {
                        push_str(&mut m, ", and no controller declares a version at all — declare it with #[controller(version = ");
                        push_str(&mut m, q.as_str());
                        push_str(&mut m, ")] or unset ");
                        push_str(&mut m, DEFAULT_VERSION_VAR);
                    } else {
                        push_str(&mut m, ", which no controller declares — the versions mounted are ");
                        let listed = join_strings(&declared, ", ");
                        assert(declared@.map_values(|p: String| p@) == texts(declared@));
                        push_str(&mut m, listed.as_str());
                        push_str(&mut m, "; name one of those or unset ");
                        push_str(&mut m, DEFAULT_VERSION_VAR);
                    }
                    return Err(m);
                }
            }
        }
    }
    assert(!(rewriting_default(selector) is Some
        && !all_versions(controllers@).contains(rewriting_default(selector)->0)));
    let mut edges = Edges { owners: Vec::new(), self_mounts: Vec::new(), unguarded_edges: Vec::new() };
    assert(pairs(edges.owners@) =~= Seq::empty());
    assert(texts(edges.self_mounts@) =~= Seq::empty());
    assert(texts(edges.unguarded_edges@) =~= Seq::empty());
    let ghost e0 = edges_view(&edges);
    assert(e0 == EdgesView { owners: Seq::empty(), self_mounts: Seq::empty(), unguarded_edges: Seq::empty() });
    let ghost cv = claims_view(&claims);
    let mut j: usize = 0;
    while j < endpoints.len()
        invariant
            j <= endpoints.len(),
            cv == claims_view(&claims),
            edges_fold(Ok(e0), cv.prefixes, cv.routes, endpoints@.take(j as int), global_guards)
                == Ok::<EdgesView, Seq<char>>(edges_view(&edges)),
        decreases endpoints.len() - j,
    {
        assert(endpoints@.take(j + 1).drop_last() == endpoints@.take(j as int));
        assert(endpoints@.take(j + 1).last() == endpoints@[j as int]);
        let step = claim_edge(&mut edges, &claims, &endpoints[j], global_guards);
        if let Err(e) = step {
            assert(edges_fold(Ok(e0), cv.prefixes, cv.routes, endpoints@.take(j + 1), global_guards)
                == Err::<EdgesView, Seq<char>>(e@));
            proof {
                lemma_edges_fold_sticks(Ok(e0), cv.prefixes, cv.routes, endpoints@, j + 1, global_guards);
            }
            return Err(e);
        }
        j = j + 1;
    }
    assert(endpoints@.take(endpoints.len() as int) == endpoints@);
    let bypass = mounts.len() > 0 && global_guards;
    if bypass && fail_secure_strict {
        let mut m = "fail-secure: imperative mount(...) endpoints bypass the global guard pool: ".to_owned();
        let listed = join_strings(mounts, ", ");
        assert(mounts@.map_values(|p: String| p@) == texts(mounts@));
        push_str(&mut m, listed.as_str());
        push_str(
            &mut m,
            " — route them through a #[controller], guard them explicitly, or opt out with HttpTransport::fail_secure_strict(false) / ",
        );
        push_str(&mut m, FAIL_SECURE_VAR);
        push_str(&mut m, "=false");
        return Err(m);
    }
    let bypassing_mounts = if bypass {
        mounts.clone()
    } else {
        Vec::new()
    };
    Ok(
        MountPlan {
            versioned_routes: claims.versioned,
            self_mounts: edges.self_mounts,
            unversioned_routes: claims.unversioned,
            declared_versions: declared,
            unguarded_routes: claims.unguarded,
            unguarded_edges: edges.unguarded_edges,
            bypassing_mounts,
        },
    )
}

/// The paths of a list of claims.
pub open spec fn claimed_paths(owners: Seq<(Seq<char>, Seq<char>)>) -> Seq<Seq<char>> {
    owners.map_values(|p: (Seq<char>, Seq<char>)| p.0)
}

/// No path occurs twice.
pub open spec fn all_distinct(s: Seq<Seq<char>>) -> bool {
    forall|i: int, j: int| 0 <= i < j < s.len() ==> #[trigger] s[i] != #[trigger] s[j]
}

/// The prefix each mount of `c` claims, one per mounted version.
pub open spec fn controller_prefixes(c: HttpControllerMeta, vs: Seq<Option<Seq<char>>>) -> Seq<Seq<char>> {
    vs.map_values(|v: Option<Seq<char>>| version_spec(v, c.path@))
}

/// Every mount prefix of `cs`, in the order they are claimed.
pub open spec fn mount_prefixes(cs: Seq<HttpControllerMeta>) -> Seq<Seq<char>>
    decreases cs.len(),
{
    if cs.len() == 0 {
        Seq::empty()
    } else {
        mount_prefixes(cs.drop_last()) + controller_prefixes(cs.last(), mounted_spec(strs(cs.last().versions@)))
    }
}

proof fn lemma_owner_of_none(owners: Seq<(Seq<char>, Seq<char>)>, path: Seq<char>)
    ensures
        owner_of(owners, path) is None <==> !claimed_paths(owners).contains(path),
    decreases owners.len(),
{
    if owners.len() > 0 {
        lemma_owner_of_none(owners.drop_last(), path);
        let ks = claimed_paths(owners);
        let k0 = claimed_paths(owners.drop_last());
        assert(ks == k0.push(owners.last().0));
        if k0.contains(path) {
            let i = choose|i: int| 0 <= i < k0.len() && k0[i] == path;
            assert(ks[i] == path);
        }
        if ks.contains(path) && owners.last().0 != path {
            let i = choose|i: int| 0 <= i < ks.len() && ks[i] == path;
            assert(k0[i] == path);
        }
        assert(ks[ks.len() - 1] == owners.last().0);
    }
}

proof fn lemma_routes_keep_prefixes(
    s: ClaimsView,
    c: HttpControllerMeta,
    v: Option<Seq<char>>,
    p: Seq<char>,
    rs: Seq<HttpRouteMeta>,
    gg: bool,
)
    requires
        routes_fold(Ok(s), c, v, p, rs, gg) is Ok,
    ensures
        routes_fold(Ok(s), c, v, p, rs, gg)->Ok_0.prefixes == s.prefixes,
    decreases rs.len(),
{
    if rs.len() > 0 {
        let prev = routes_fold(Ok(s), c, v, p, rs.drop_last(), gg);
        if prev is Err {
            assert(false);
        }
        lemma_routes_keep_prefixes(s, c, v, p, rs.drop_last(), gg);
    }
}

proof fn lemma_versions_claim_prefixes(s: ClaimsView, c: HttpControllerMeta, vs: Seq<Option<Seq<char>>>, gg: bool)
    requires
        versions_fold(Ok(s), c, vs, gg) is Ok,
        all_distinct(claimed_paths(s.prefixes)),
    ensures
        claimed_paths(versions_fold(Ok(s), c, vs, gg)->Ok_0.prefixes) == claimed_paths(s.prefixes) + controller_prefixes(c, vs),
        all_distinct(claimed_paths(versions_fold(Ok(s), c, vs, gg)->Ok_0.prefixes)),
    decreases vs.len(),
{
    if vs.len() == 0 {
        assert(controller_prefixes(c, vs) =~= Seq::empty());
        assert(claimed_paths(s.prefixes) + Seq::<Seq<char>>::empty() =~= claimed_paths(s.prefixes));
    } else {
        let prev = versions_fold(Ok(s), c, vs.drop_last(), gg);
        if prev is Err {
            assert(false);
        }
        lemma_versions_claim_prefixes(s, c, vs.drop_last(), gg);
        let s1 = prev->Ok_0;
        let v = vs.last();
        let prefix = version_spec(v, c.path@);
        let claimed = claim_spec(s1.prefixes, PREFIX_KIND@, prefix, c.controller@, remedy_spec(v));
        if claimed is Err {
            assert(false);
        }
        let ps = claimed->Ok_0;
        lemma_owner_of_none(s1.prefixes, prefix);
        assert(ps == s1.prefixes.push((prefix, c.controller@)));
        let st2 = ClaimsView { prefixes: ps, ..s1 };
        lemma_routes_keep_prefixes(st2, c, v, prefix, c.routes@, gg);
        let k1 = claimed_paths(s1.prefixes);
        let k2 = claimed_paths(ps);
        assert(k2 == k1.push(prefix));
        assert(controller_prefixes(c, vs) == controller_prefixes(c, vs.drop_last()).push(prefix));
        assert(claimed_paths(s.prefixes) + controller_prefixes(c, vs) == k1.push(prefix));
        assert forall|i: int, j: int| 0 <= i < j < k2.len() implies #[trigger] k2[i] != #[trigger] k2[j] by {
            if j == k2.len() - 1 {
                assert(k1[i] == k2[i]);
                assert(k1.contains(k2[i]));
            } else {
                assert(k1[i] == k2[i] && k1[j] == k2[j]);
            }
        }
    }
}

proof fn lemma_controllers_claim_prefixes(cs: Seq<HttpControllerMeta>, gg: bool)
    requires
        controllers_fold(Ok(no_claims()), cs, gg) is Ok,
    ensures
        claimed_paths(controllers_fold(Ok(no_claims()), cs, gg)->Ok_0.prefixes) == mount_prefixes(cs),
        all_distinct(claimed_paths(controllers_fold(Ok(no_claims()), cs, gg)->Ok_0.prefixes)),
    decreases cs.len(),
{
    if cs.len() == 0 {
        assert(claimed_paths(no_claims().prefixes) =~= Seq::empty());
    } else {
        let prev = controllers_fold(Ok(no_claims()), cs.drop_last(), gg);
        if prev is Err {
            lemma_versions_fold_err(prev->Err_0, cs.last(), mounted_spec(strs(cs.last().versions@)), gg);
            assert(false);
        }
        lemma_controllers_claim_prefixes(cs.drop_last(), gg);
        lemma_versions_claim_prefixes(prev->Ok_0, cs.last(), mounted_spec(strs(cs.last().versions@)), gg);
    }
}

/// A controller prefix is its mount's exclusive namespace: a boot that goes
/// through mounted no prefix twice. Two controllers — or two declared
/// versions of one — claiming one prefix fail the boot instead of reaching
/// route assembly.
pub proof fn law_mount_prefixes_are_exclusive(
    cs: Seq<HttpControllerMeta>,
    es: Seq<HttpEndpointMeta>,
    mounts: Seq<Seq<char>>,
    global_guards: bool,
    strict: bool,
    rewriting_default: Option<Seq<char>>,
)
    requires
        plan_spec(cs, es, mounts, global_guards, strict, rewriting_default) is Ok,
    ensures
        all_distinct(mount_prefixes(cs)),
{
    lemma_controllers_claim_prefixes(cs, global_guards);
}

/// The paths a list of self-mounts owns.
pub open spec fn self_mount_paths(es: Seq<HttpEndpointMeta>) -> Seq<Seq<char>> {
    es.map_values(|e: HttpEndpointMeta| e.path_view())
}

proof fn lemma_edges_claim_paths(
    e0: EdgesView,
    ps: Seq<(Seq<char>, Seq<char>)>,
    rs: Seq<(Seq<char>, Seq<char>)>,
    es: Seq<HttpEndpointMeta>,
    gg: bool,
)
    requires
        e0.owners.len() == 0,
        edges_fold(Ok(e0), ps, rs, es, gg) is Ok,
    ensures
        claimed_paths(edges_fold(Ok(e0), ps, rs, es, gg)->Ok_0.owners) == self_mount_paths(es),
        all_distinct(self_mount_paths(es)),
        forall|k: int| 0 <= k < es.len() ==> !claimed_paths(ps).contains(#[trigger] es[k].path_view())
            && !claimed_paths(rs).contains(es[k].path_view()),
    decreases es.len(),
{
    if es.len() == 0 {
        assert(claimed_paths(e0.owners) =~= Seq::empty());
        assert(self_mount_paths(es) =~= Seq::empty());
    } else {
        let prev = edges_fold(Ok(e0), ps, rs, es.drop_last(), gg);
        if prev is Err {
            assert(false);
        }
        lemma_edges_claim_paths(e0, ps, rs, es.drop_last(), gg);
        let st = prev->Ok_0;
        let e = es.last();
        let path = e.path_view();
        lemma_owner_of_none(ps, path);
        lemma_owner_of_none(rs, path);
        lemma_owner_of_none(st.owners, path);
        let k1 = claimed_paths(st.owners);
        let owners = claim_spec(st.owners, SELF_MOUNT_KIND@, path, e.label_view() + " endpoint"@, DISTINCT_PATH@)->Ok_0;
        let k2 = claimed_paths(owners);
        assert(k2 == k1.push(path));
        assert(self_mount_paths(es) == self_mount_paths(es.drop_last()).push(path));
        assert forall|i: int, j: int| 0 <= i < j < k2.len() implies #[trigger] k2[i] != #[trigger] k2[j] by {
            if j == k2.len() - 1 {
                assert(k1[i] == k2[i]);
                assert(k1.contains(k2[i]));
            } else {
                assert(k1[i] == k2[i] && k1[j] == k2[j]);
            }
        }
        assert forall|k: int| 0 <= k < es.len() implies !claimed_paths(ps).contains(#[trigger] es[k].path_view())
            && !claimed_paths(rs).contains(es[k].path_view()) by {
            if k < es.len() - 1 {
                assert(es.drop_last()[k] == es[k]);
            }
        }
    }
}

/// A self-mounted path is its endpoint's exclusive namespace: a boot that
/// goes through mounted no two self-mounts at one path, and none at a
/// controller prefix.
pub proof fn law_self_mount_paths_are_exclusive(
    cs: Seq<HttpControllerMeta>,
    es: Seq<HttpEndpointMeta>,
    mounts: Seq<Seq<char>>,
    global_guards: bool,
    strict: bool,
    rewriting_default: Option<Seq<char>>,
)
    requires
        plan_spec(cs, es, mounts, global_guards, strict, rewriting_default) is Ok,
    ensures
        all_distinct(self_mount_paths(es)),
        forall|k: int| 0 <= k < es.len() ==> !mount_prefixes(cs).contains(#[trigger] es[k].path_view()),
{
    lemma_controllers_claim_prefixes(cs, global_guards);
    let c = controllers_fold(Ok(no_claims()), cs, global_guards)->Ok_0;
    let e0 = EdgesView { owners: Seq::empty(), self_mounts: Seq::empty(), unguarded_edges: Seq::empty() };
    lemma_edges_claim_paths(e0, c.prefixes, c.routes, es, global_guards);
}

/// The routes of `c` mounted under `version` at `prefix`, as (full path,
/// controller), in mount order.
pub open spec fn version_routes(
    c: HttpControllerMeta,
    version: Option<Seq<char>>,
    prefix: Seq<char>,
    rs: Seq<HttpRouteMeta>,
) -> Seq<(Seq<char>, Seq<char>)>
    decreases rs.len(),
{
    if rs.len() == 0 {
        Seq::empty()
    } else {
        let before = version_routes(c, version, prefix, rs.drop_last());
        if serves_spec(strs(rs.last().versions@), version) {
            before.push((join_spec(prefix, rs.last().path@), c.controller@))
        } else {
            before
        }
    }
}

/// Every route `c` mounts, one mounted version after the other.
pub open spec fn controller_routes(c: HttpControllerMeta, vs: Seq<Option<Seq<char>>>) -> Seq<(Seq<char>, Seq<char>)>
    decreases vs.len(),
{
    if vs.len() == 0 {
        Seq::empty()
    } else {
        controller_routes(c, vs.drop_last()) + version_routes(c, vs.last(), version_spec(vs.last(), c.path@), c.routes@)
    }
}

/// Every route `cs` mounts, as (full path, controller), in mount order.
pub open spec fn mounted_routes(cs: Seq<HttpControllerMeta>) -> Seq<(Seq<char>, Seq<char>)>
    decreases cs.len(),
{
    if cs.len() == 0 {
        Seq::empty()
    } else {
        mounted_routes(cs.drop_last()) + controller_routes(cs.last(), mounted_spec(strs(cs.last().versions@)))
    }
}

/// Each of `all` is owned, in `owners`, by its own controller.
pub open spec fn owns_all(owners: Seq<(Seq<char>, Seq<char>)>, all: Seq<(Seq<char>, Seq<char>)>) -> bool {
    forall|k: int| #![trigger all[k]] 0 <= k < all.len() ==> owner_of(owners, all[k].0) == Some(all[k].1)
}

proof fn lemma_owner_of_push(owners: Seq<(Seq<char>, Seq<char>)>, path: Seq<char>, owner: Seq<char>, q: Seq<char>)
    ensures
        owner_of(owners.push((path, owner)), q) == (if q == path {
            Some(owner)
        } else {
            owner_of(owners, q)
        }),
{
    assert(owners.push((path, owner)).drop_last() == owners);
}

proof fn lemma_route_step_owns(
    s: ClaimsView,
    c: HttpControllerMeta,
    v: Option<Seq<char>>,
    p: Seq<char>,
    r: HttpRouteMeta,
    gg: bool,
    all: Seq<(Seq<char>, Seq<char>)>,
)
    requires
        route_step(s, c, v, p, r, gg) is Ok,
        owns_all(s.routes, all),
    ensures
        owns_all(
            route_step(s, c, v, p, r, gg)->Ok_0.routes,
            if serves_spec(strs(r.versions@), v) {
                all.push((join_spec(p, r.path@), c.controller@))
            } else {
                all
            },
        ),
{
    if serves_spec(strs(r.versions@), v) {
        let path = join_spec(p, r.path@);
        let all2 = all.push((path, c.controller@));
        let s2 = route_step(s, c, v, p, r, gg)->Ok_0;
        match owner_of(s.routes, path) {
            Some(first) => {
                assert(s2.routes == s.routes);
                assert forall|k: int| #![trigger all2[k]] 0 <= k < all2.len() implies owner_of(s2.routes, all2[k].0)
                    == Some(all2[k].1) by {
                    if k < all.len() {
                        assert(all2[k] == all[k]);
                    }
                }
            },
            None => {
                assert(s2.routes == s.routes.push((path, c.controller@)));
                assert forall|k: int| #![trigger all2[k]] 0 <= k < all2.len() implies owner_of(s2.routes, all2[k].0)
                    == Some(all2[k].1) by {
                    lemma_owner_of_push(s.routes, path, c.controller@, all2[k].0);
                    if k < all.len() {
                        assert(all2[k] == all[k]);
                        assert(owner_of(s.routes, all[k].0) == Some(all[k].1));
                    }
                }
            },
        }
    }
}

proof fn lemma_routes_own(
    s: ClaimsView,
    c: HttpControllerMeta,
    v: Option<Seq<char>>,
    p: Seq<char>,
    rs: Seq<HttpRouteMeta>,
    gg: bool,
    all: Seq<(Seq<char>, Seq<char>)>,
)
    requires
        routes_fold(Ok(s), c, v, p, rs, gg) is Ok,
        owns_all(s.routes, all),
    ensures
        owns_all(routes_fold(Ok(s), c, v, p, rs, gg)->Ok_0.routes, all + version_routes(c, v, p, rs)),
    decreases rs.len(),
{
    if rs.len() == 0 {
        assert(all + version_routes(c, v, p, rs) =~= all);
    } else {
        let prev = routes_fold(Ok(s), c, v, p, rs.drop_last(), gg);
        if prev is Err {
            assert(false);
        }
        lemma_routes_own(s, c, v, p, rs.drop_last(), gg, all);
        let mid = all + version_routes(c, v, p, rs.drop_last());
        lemma_route_step_owns(prev->Ok_0, c, v, p, rs.last(), gg, mid);
        if serves_spec(strs(rs.last().versions@), v) {
            assert(mid.push((join_spec(p, rs.last().path@), c.controller@)) =~= all + version_routes(c, v, p, rs));
        } else {
            assert(mid =~= all + version_routes(c, v, p, rs));
        }
    }
}

proof fn lemma_versions_own(
    s: ClaimsView,
    c: HttpControllerMeta,
    vs: Seq<Option<Seq<char>>>,
    gg: bool,
    all: Seq<(Seq<char>, Seq<char>)>,
)
    requires
        versions_fold(Ok(s), c, vs, gg) is Ok,
        owns_all(s.routes, all),
    ensures
        owns_all(versions_fold(Ok(s), c, vs, gg)->Ok_0.routes, all + controller_routes(c, vs)),
    decreases vs.len(),
{
    if vs.len() == 0 {
        assert(all + controller_routes(c, vs) =~= all);
    } else {
        let prev = versions_fold(Ok(s), c, vs.drop_last(), gg);
        if prev is Err {
            assert(false);
        }
        lemma_versions_own(s, c, vs.drop_last(), gg, all);
        let s1 = prev->Ok_0;
        let v = vs.last();
        let prefix = version_spec(v, c.path@);
        let claimed = claim_spec(s1.prefixes, PREFIX_KIND@, prefix, c.controller@, remedy_spec(v));
        if claimed is Err {
            assert(false);
        }
        let st2 = ClaimsView { prefixes: claimed->Ok_0, ..s1 };
        let mid = all + controller_routes(c, vs.drop_last());
        lemma_routes_own(st2, c, v, prefix, c.routes@, gg, mid);
        assert(mid + version_routes(c, v, prefix, c.routes@) =~= all + controller_routes(c, vs));
    }
}

proof fn lemma_controllers_own(cs: Seq<HttpControllerMeta>, gg: bool)
    requires
        controllers_fold(Ok(no_claims()), cs, gg) is Ok,
    ensures
        owns_all(controllers_fold(Ok(no_claims()), cs, gg)->Ok_0.routes, mounted_routes(cs)),
    decreases cs.len(),
{
    if cs.len() > 0 {
        let prev = controllers_fold(Ok(no_claims()), cs.drop_last(), gg);
        if prev is Err {
            lemma_versions_fold_err(prev->Err_0, cs.last(), mounted_spec(strs(cs.last().versions@)), gg);
            assert(false);
        }
        lemma_controllers_own(cs.drop_last(), gg);
        lemma_versions_own(
            prev->Ok_0,
            cs.last(),
            mounted_spec(strs(cs.last().versions@)),
            gg,
            mounted_routes(cs.drop_last()),
        );
    }
}

/// A full route path belongs to one controller: a boot that goes through
/// mounted no routes of two different controllers at one path (several
/// verbs of one controller on one path share it), and no self-mount at a
/// route path.
pub proof fn law_route_paths_have_one_owner(
    cs: Seq<HttpControllerMeta>,
    es: Seq<HttpEndpointMeta>,
    mounts: Seq<Seq<char>>,
    global_guards: bool,
    strict: bool,
    rewriting_default: Option<Seq<char>>,
)
    requires
        plan_spec(cs, es, mounts, global_guards, strict, rewriting_default) is Ok,
    ensures
        forall|i: int, j: int|
            #![trigger mounted_routes(cs)[i], mounted_routes(cs)[j]]
            0 <= i < mounted_routes(cs).len() && 0 <= j < mounted_routes(cs).len() && mounted_routes(cs)[i].0
                == mounted_routes(cs)[j].0 ==> mounted_routes(cs)[i].1 == mounted_routes(cs)[j].1,
        forall|k: int, i: int|
            #![trigger es[k], mounted_routes(cs)[i]]
            0 <= k < es.len() && 0 <= i < mounted_routes(cs).len() ==> es[k].path_view() != mounted_routes(cs)[i].0,
{
    lemma_controllers_own(cs, global_guards);
    let c = controllers_fold(Ok(no_claims()), cs, global_guards)->Ok_0;
    let e0 = EdgesView { owners: Seq::empty(), self_mounts: Seq::empty(), unguarded_edges: Seq::empty() };
    lemma_edges_claim_paths(e0, c.prefixes, c.routes, es, global_guards);
    let rt = mounted_routes(cs);
    assert forall|k: int, i: int| #![trigger es[k], rt[i]] 0 <= k < es.len() && 0 <= i < rt.len() implies es[k].path_view()
        != rt[i].0 by {
        lemma_owner_of_none(c.routes, rt[i].0);
        assert(owner_of(c.routes, rt[i].0) == Some(rt[i].1));
    }
}

} // verus!
