//! What a controller declares: its routes, their verbs and versions, and the
//! access decision each one carries.
use vstd::prelude::*;

use crate::paths::{version_path, version_spec};

verus! {

/// The HTTP method a route answers.
#[derive(Clone, Copy, Debug, PartialEq, Eq, Structural)]
pub enum HttpVerb {
    /// `GET`.
    Get,
    /// `POST`.
    Post,
    /// `PUT`.
    Put,
    /// `DELETE`.
    Delete,
    /// `PATCH`.
    Patch,
}

/// The uppercase method token of a verb.
pub open spec fn verb_name(v: HttpVerb) -> Seq<char> {
    match v {
        HttpVerb::Get => seq!['G', 'E', 'T'],
        HttpVerb::Post => seq!['P', 'O', 'S', 'T'],
        HttpVerb::Put => seq!['P', 'U', 'T'],
        HttpVerb::Delete => seq!['D', 'E', 'L', 'E', 'T', 'E'],
        HttpVerb::Patch => seq!['P', 'A', 'T', 'C', 'H'],
    }
}

impl HttpVerb {
    /// The uppercase method token (`"GET"`, `"POST"`, …).
    pub fn as_str(self) -> (r: &'static str)
        ensures
            r@ == verb_name(self),
    {
        match self {
            HttpVerb::Get => {
                proof { reveal_strlit("GET"); }
                "GET"
            },
            HttpVerb::Post => {
                proof { reveal_strlit("POST"); }
                "POST"
            },
            HttpVerb::Put => {
                proof { reveal_strlit("PUT"); }
                "PUT"
            },
            HttpVerb::Delete => {
                proof { reveal_strlit("DELETE"); }
                "DELETE"
            },
            HttpVerb::Patch => {
                proof { reveal_strlit("PATCH"); }
                "PATCH"
            },
        }
    }
}

/// Two different verbs never render as the same token.
pub proof fn law_verb_names_are_distinct(a: HttpVerb, b: HttpVerb)
    requires
        a != b,
    ensures
        verb_name(a) != verb_name(b),
{
    if verb_name(a) == verb_name(b) {
        assert(verb_name(a).len() == verb_name(b).len());
        assert(verb_name(a)[0] == verb_name(b)[0]);
        assert(verb_name(a)[1] == verb_name(b)[1]);
    }
}

/// The kind of body a route accepts, which fixes the media type a document
/// files it under. The schema builders for its content stay with the glue
/// that generates the document.
#[derive(Clone, Copy, Debug, PartialEq, Eq, Structural)]
pub enum RequestBodyKind {
    /// A `Json<T>` extractor.
    Json,
    /// A `multipart/form-data` body.
    Multipart,
    /// A `Form<T>` extractor.
    Form,
}

impl RequestBodyKind {
    /// The `content` key an OpenAPI document files this body under.
    pub fn media_type(self) -> (r: &'static str)
        ensures
            r@ == (match self {
                RequestBodyKind::Json => "application/json"@,
                RequestBodyKind::Multipart => "multipart/form-data"@,
                RequestBodyKind::Form => "application/x-www-form-urlencoded"@,
            }),
    {
        match self {
            RequestBodyKind::Json => "application/json",
            RequestBodyKind::Multipart => "multipart/form-data",
            RequestBodyKind::Form => "application/x-www-form-urlencoded",
        }
    }
}

/// Declarative description of a handler in a controller: verb, path, name,
/// versions and the access decision. The schema builders a document
/// generator reads stay with the framework glue.
#[derive(Clone, Copy, Debug)]
pub struct HttpRouteMeta {
    /// The method this route answers.
    pub verb: HttpVerb,
    /// The route path, relative to the controller prefix.
    pub path: &'static str,
    /// The handler method's name.
    pub handler: &'static str,
    /// The versions this route serves, out of its controller's; empty serves
    /// every one of them.
    pub versions: &'static [&'static str],
    /// `#[api(summary = …)]`, if given.
    pub summary: Option<&'static str>,
    /// `#[api(description = …)]`, if given.
    pub description: Option<&'static str>,
    /// The OpenAPI tags.
    pub tags: &'static [&'static str],
    /// The success response media type when it is not `application/json`.
    pub response_content_type: Option<&'static str>,
    /// An ability shaper masks this route's response.
    pub masked: bool,
    /// The operation can answer `409 Conflict`.
    pub may_conflict: bool,
    /// A throttler rate-limits this route.
    pub throttled: bool,
    /// The success response carries `Location`.
    pub sets_location: bool,
    /// The effective success status.
    pub success_status: u16,
    /// A controller- or method-level guard covers this route.
    pub scoped_guarded: bool,
    /// `#[public]`.
    pub public: bool,
}

/// The texts of a slice of string slices.
pub open spec fn strs(v: Seq<&'static str>) -> Seq<Seq<char>> {
    v.map_values(|s: &'static str| s@)
}

/// The route's access decision is implicit: no global pool, no scoped guard,
/// not public.
pub open spec fn implicit_spec(global_guards: bool, scoped_guarded: bool, public: bool) -> bool {
    !global_guards && !scoped_guarded && !public
}

impl HttpRouteMeta {
    /// The route's access decision is **implicit**: no global guard pool
    /// covers it, it binds no guard, and it is not `#[public]`.
    pub fn access_is_implicit(&self, global_guards: bool) -> (r: bool)
        ensures
            r == implicit_spec(global_guards, self.scoped_guarded, self.public),
    {
        !global_guards && !self.scoped_guarded && !self.public
    }
}

/// The text of an optional string slice.
pub open spec fn opt_text(v: Option<&str>) -> Option<Seq<char>> {
    match v {
        Some(s) => Some(s@),
        None => None,
    }
}

/// The versions a controller mounts under: one `None` when it declares none,
/// one `Some(v)` per declared version otherwise.
pub open spec fn mounted_spec(versions: Seq<Seq<char>>) -> Seq<Option<Seq<char>>> {
    if versions.len() == 0 {
        seq![None]
    } else {
        versions.map_values(|v: Seq<char>| Some(v))
    }
}

/// Whether a route declaring `route_versions` serves `version`.
pub open spec fn serves_spec(route_versions: Seq<Seq<char>>, version: Option<Seq<char>>) -> bool {
    route_versions.len() == 0 || version is None || route_versions.contains(version->0)
}

/// Discovery metadata of one controller: its name, identifier token, prefix,
/// declared versions and routes.
#[derive(Clone, Debug)]
pub struct HttpControllerMeta {
    /// The controller struct name.
    pub controller: &'static str,
    /// The controller's name as an identifier fragment.
    pub token: &'static str,
    /// The controller's shared path prefix (before URI versioning).
    pub path: &'static str,
    /// Every version this controller serves; empty means unversioned.
    pub versions: &'static [&'static str],
    /// Metadata for each route this controller declares.
    pub routes: Vec<HttpRouteMeta>,
}

impl HttpControllerMeta {
    /// Assemble the discovery metadata for one controller.
    pub fn new(
        controller: &'static str,
        token: &'static str,
        path: &'static str,
        versions: &'static [&'static str],
        routes: Vec<HttpRouteMeta>,
    ) -> (r: Self)
        ensures
            r.controller == controller,
            r.token == token,
            r.path == path,
            r.versions == versions,
            r.routes@ == routes@,
    {
        HttpControllerMeta { controller, token, path, versions, routes }
    }

    /// The versions this controller mounts under.
    pub fn mounted_versions(&self) -> (r: Vec<Option<&'static str>>)
        ensures
            r@.map_values(|v: Option<&'static str>| opt_text(v)) == mounted_spec(strs(self.versions@)),
    {
        let mut r: Vec<Option<&'static str>> = Vec::new();
        if self.versions.len() == 0 {
            r.push(None);
            assert(r@.map_values(|v: Option<&'static str>| opt_text(v)) =~= seq![None::<Seq<char>>]);
            return r;
        }
        let mut i: usize = 0;
        while i < self.versions.len()
            invariant
                i <= self.versions.len(),
                r@.len() == i,
                forall|k: int| 0 <= k < i ==> #[trigger] r@[k] == Some(self.versions@[k]),
            decreases self.versions.len() - i,
        {
            r.push(Some(self.versions[i]));
            i = i + 1;
        }
        assert(r@.map_values(|v: Option<&'static str>| opt_text(v)) =~= mounted_spec(strs(self.versions@)));
        r
    }

    /// Mount prefix for one mounted version (`/v1/users`, or `/users`).
    pub fn effective_prefix(&self, version: Option<&str>) -> (r: String)
        ensures
            r@ == version_spec(
                match version {
                    Some(v) => Some(v@),
                    None => None,
                },
                self.path@,
            ),
    {
        version_path(version, self.path)
    }

    /// Whether `route` is served under `version`: an undecorated route serves
    /// every version, and an unversioned mount has one address.
    #[verifier::loop_isolation(false)]
    pub fn serves(route: &HttpRouteMeta, version: Option<&str>) -> (r: bool)
        ensures
            r == serves_spec(
                strs(route.versions@),
                match version {
                    Some(v) => Some(v@),
                    None => None,
                },
            ),
    {
        if route.versions.len() == 0 {
            return true;
        }
        let v = match version {
            None => {
                return true;
            },
            Some(v) => v,
        };
        let ghost rv = strs(route.versions@);
        let mut i: usize = 0;
        while i < route.versions.len()
            invariant
                i <= route.versions.len(),
                rv == strs(route.versions@),
                forall|j: int| 0 <= j < i ==> rv[j] != v@,
            decreases route.versions.len() - i,
        {
            if crate::paths::str_eq(route.versions[i], v) {
                assert(rv[i as int] == v@);
                return true;
            }
            i = i + 1;
        }
        false
    }
}

} // verus!
