//! Cross-Origin Resource Sharing policy, and everything that is refused
//! before it becomes a middleware: a wildcard where credentials make it a
//! literal, a method or header name that is no token, a preflight lifetime
//! that overflows.
use vstd::prelude::*;

use crate::paths::str_eq;
use crate::text::push_str;
use crate::versioning::texts;
use crate::wire::{header_name_parses, method_parses, valid_header_name, valid_token};

verus! {

/// The wildcard, as the four lists spell it.
pub const WILDCARD: &'static str = "*";

/// Cross-Origin Resource Sharing policy. No origins means no CORS layer.
#[derive(Clone, Debug)]
pub struct CorsConfig {
    /// Allowed origins; empty means no CORS layer.
    pub origins: Vec<String>,
    /// Allowed request methods (`Access-Control-Allow-Methods`).
    pub methods: Vec<String>,
    /// Allowed request headers (`Access-Control-Allow-Headers`).
    pub headers: Vec<String>,
    /// Response headers exposed to the browser (`Access-Control-Expose-Headers`).
    pub exposed_headers: Vec<String>,
    /// Whether credentialed requests are allowed.
    pub credentials: bool,
    /// Preflight cache lifetime in seconds (`Access-Control-Max-Age`); `None`
    /// omits it.
    pub max_age: Option<u64>,
}

impl Default for CorsConfig {
    fn default() -> (r: Self)
        ensures
            r.origins@.len() == 0,
            r.methods@.len() == 0,
            r.headers@.len() == 0,
            r.exposed_headers@.len() == 0,
            !r.credentials,
            r.max_age is None,
    {
        CorsConfig {
            origins: Vec::new(),
            methods: Vec::new(),
            headers: Vec::new(),
            exposed_headers: Vec::new(),
            credentials: false,
            max_age: None,
        }
    }
}

/// The four lists a `*` may stand in, each with the header it renders into.
pub open spec fn wildcard_table(c: CorsConfig) -> Seq<(Seq<char>, Seq<char>, Seq<Seq<char>>)> {
    seq![
        ("origins"@, "Access-Control-Allow-Origin"@, texts(c.origins@)),
        ("headers"@, "Access-Control-Allow-Headers"@, texts(c.headers@)),
        ("methods"@, "Access-Control-Allow-Methods"@, texts(c.methods@)),
        ("exposed_headers"@, "Access-Control-Expose-Headers"@, texts(c.exposed_headers@)),
    ]
}

/// The first list, from `i` on, that holds the wildcard.
pub open spec fn first_wildcard(t: Seq<(Seq<char>, Seq<char>, Seq<Seq<char>>)>, i: int) -> Option<int>
    decreases t.len() - i,
{
    if i < 0 || i >= t.len() {
        None
    } else if t[i].2.contains(WILDCARD@) {
        Some(i)
    } else {
        first_wildcard(t, i + 1)
    }
}

/// The refusal of a wildcard that credentials turn into a literal.
pub open spec fn wildcard_message(field: Seq<char>, header: Seq<char>) -> Seq<char> {
    "invalid CORS config: `*` in `"@ + field
        + "` with `credentials` — for a request whose credentials mode is `include`, WHATWG Fetch reads `*` in `"@
        + header
        + "` as that literal value rather than as a wildcard, so the response is emitted and no browser honours it; list the values explicitly or turn `credentials` off"@
}

/// The first item of `items` that fails `ok`.
pub open spec fn first_bad(items: Seq<Seq<char>>, ok: spec_fn(Seq<char>) -> bool, i: int) -> Option<int>
    decreases items.len() - i,
{
    if i < 0 || i >= items.len() {
        None
    } else if !ok(items[i]) {
        Some(i)
    } else {
        first_bad(items, ok, i + 1)
    }
}

/// The largest preflight lifetime the header can carry, in seconds.
pub const MAX_AGE_LIMIT: u64 = 2147483647;

/// Everything that keeps a policy from becoming a middleware, first failure
/// first: a wildcard under credentials, a method that is no token, an
/// allowed or exposed header name that is none, a lifetime past `i32`.
pub open spec fn check_spec(c: CorsConfig) -> Result<(), Seq<char>> {
    let t = wildcard_table(c);
    let ms = texts(c.methods@);
    let hs = texts(c.headers@);
    let xs = texts(c.exposed_headers@);
    if c.credentials && first_wildcard(t, 0) is Some {
        let i = first_wildcard(t, 0)->0;
        Err(wildcard_message(t[i].0, t[i].1))
    } else if first_bad(ms, |m: Seq<char>| valid_token(m), 0) is Some {
        Err("invalid HTTP method in CORS config: `"@ + ms[first_bad(ms, |m: Seq<char>| valid_token(m), 0)->0] + "`"@)
    } else if first_bad(hs, |h: Seq<char>| valid_header_name(h), 0) is Some {
        Err("invalid header name in CORS allow-list: `"@ + hs[first_bad(hs, |h: Seq<char>| valid_header_name(h), 0)->0] + "`"@)
    } else if first_bad(xs, |h: Seq<char>| valid_header_name(h), 0) is Some {
        Err("invalid header name in CORS expose-list: `"@ + xs[first_bad(xs, |h: Seq<char>| valid_header_name(h), 0)->0] + "`"@)
    } else if c.max_age is Some && c.max_age->0 > MAX_AGE_LIMIT {
        Err("CORS max_age overflows i32 seconds (~68 years); pick a smaller value"@)
    } else {
        Ok(())
    }
}

/// Whether `list` holds the wildcard.
fn holds_wildcard(list: &Vec<String>) -> (r: bool)
    ensures
        r == texts(list@).contains(WILDCARD@),
{
    let ghost t = texts(list@);
    let mut i: usize = 0;
    while i < list.len()
        invariant
            i <= list.len(),
            t == texts(list@),
            forall|k: int| 0 <= k < i ==> t[k] != WILDCARD@,
        decreases list.len() - i,
    {
        if str_eq(list[i].as_str(), WILDCARD) {
            assert(t[i as int] == WILDCARD@);
            return true;
        }
        i = i + 1;
    }
    false
}

/// The first method of `items` that is no token.
fn first_bad_method(items: &Vec<String>) -> (r: Option<usize>)
    ensures
        match r {
            Some(k) => first_bad(texts(items@), |m: Seq<char>| valid_token(m), 0) == Some(k as int) && k < items@.len(),
            None => first_bad(texts(items@), |m: Seq<char>| valid_token(m), 0) is None,
        },
{
    let ghost t = texts(items@);
    let ghost ok = |m: Seq<char>| valid_token(m);
    let mut i: usize = 0;
    while i < items.len()
        invariant
            i <= items.len(),
            t == texts(items@),
            ok == (|m: Seq<char>| valid_token(m)),
            first_bad(t, ok, 0) == first_bad(t, ok, i as int),
        decreases items.len() - i,
    {
        if !method_parses(items[i].as_str()) {
            assert(!ok(t[i as int]));
            return Some(i);
        }
        i = i + 1;
    }
    None
}

/// The first name of `items` that is no header name.
fn first_bad_header(items: &Vec<String>) -> (r: Option<usize>)
    ensures
        match r {
            Some(k) => first_bad(texts(items@), |h: Seq<char>| valid_header_name(h), 0) == Some(k as int) && k < items@.len(),
            None => first_bad(texts(items@), |h: Seq<char>| valid_header_name(h), 0) is None,
        },
{
    let ghost t = texts(items@);
    let ghost ok = |h: Seq<char>| valid_header_name(h);
    let mut i: usize = 0;
    while i < items.len()
        invariant
            i <= items.len(),
            t == texts(items@),
            ok == (|h: Seq<char>| valid_header_name(h)),
            first_bad(t, ok, 0) == first_bad(t, ok, i as int),
        decreases items.len() - i,
    {
        if !header_name_parses(items[i].as_str()) {
            assert(!ok(t[i as int]));
            return Some(i);
        }
        i = i + 1;
    }
    None
}

impl CorsConfig {
    /// The four lists where `*` turns literal once credentials are
    /// included, each with its response header.
    pub fn wildcard_lists(&self) -> (r: Vec<(&'static str, &'static str, &Vec<String>)>)
        ensures
            r@.map_values(|e: (&'static str, &'static str, &Vec<String>)| (e.0@, e.1@, texts(e.2@)))
                == wildcard_table(*self),
    {
        let r = vec![
            ("origins", "Access-Control-Allow-Origin", &self.origins),
            ("headers", "Access-Control-Allow-Headers", &self.headers),
            ("methods", "Access-Control-Allow-Methods", &self.methods),
            ("exposed_headers", "Access-Control-Expose-Headers", &self.exposed_headers),
        ];
        assert(r@.map_values(|e: (&'static str, &'static str, &Vec<String>)| (e.0@, e.1@, texts(e.2@)))
            =~= wildcard_table(*self));
        r
    }

    /// With credentials, refuse a `*` in any of the four lists, naming the
    /// list and its header; without, a wildcard is an ordinary public policy.
    pub fn reject_wildcards_with_credentials(&self) -> (r: Result<(), String>)
        ensures
            match r {
                Ok(()) => !(self.credentials && first_wildcard(wildcard_table(*self), 0) is Some),
                Err(e) => self.credentials && first_wildcard(wildcard_table(*self), 0) is Some && e@
                    == wildcard_message(
                    wildcard_table(*self)[first_wildcard(wildcard_table(*self), 0)->0].0,
                    wildcard_table(*self)[first_wildcard(wildcard_table(*self), 0)->0].1,
                ),
            },
    {
        if !self.credentials {
            return Ok(());
        }
        let lists = self.wildcard_lists();
        let ghost t = wildcard_table(*self);
        let mut i: usize = 0;
        while i < lists.len()
            invariant
                i <= lists.len(),
                self.credentials,
                t == wildcard_table(*self),
                lists@.map_values(|e: (&'static str, &'static str, &Vec<String>)| (e.0@, e.1@, texts(e.2@))) == t,
                first_wildcard(t, 0) == first_wildcard(t, i as int),
            decreases lists.len() - i,
        {
            let (field, header, values) = lists[i];
            assert((field@, header@, texts(values@)) == t[i as int]);
            if holds_wildcard(values) {
                assert(first_wildcard(t, i as int) == Some(i as int));
                let mut m = "invalid CORS config: `*` in `".to_owned();
                push_str(&mut m, field);
                push_str(
                    &mut m,
                    "` with `credentials` — for a request whose credentials mode is `include`, WHATWG Fetch reads `*` in `",
                );
                push_str(&mut m, header);
                push_str(
                    &mut m,
                    "` as that literal value rather than as a wildcard, so the response is emitted and no browser honours it; list the values explicitly or turn `credentials` off",
                );
                return Err(m);
            }
            i = i + 1;
        }
        Ok(())
    }

    /// Check the policy before it becomes a middleware; see [`check_spec`].
    pub fn check(&self) -> (r: Result<(), String>)
        ensures
            match r {
                Ok(()) => check_spec(*self) == Ok::<(), Seq<char>>(()),
                Err(e) => check_spec(*self) == Err::<(), Seq<char>>(e@),
            },
    {
        self.reject_wildcards_with_credentials()?;
        if let Some(k) = first_bad_method(&self.methods) {
            let mut m = "invalid HTTP method in CORS config: `".to_owned();
            push_str(&mut m, self.methods[k].as_str());
            push_str(&mut m, "`");
            return Err(m);
        }
        if let Some(k) = first_bad_header(&self.headers) {
            let mut m = "invalid header name in CORS allow-list: `".to_owned();
            push_str(&mut m, self.headers[k].as_str());
            push_str(&mut m, "`");
            return Err(m);
        }
        if let Some(k) = first_bad_header(&self.exposed_headers) {
            let mut m = "invalid header name in CORS expose-list: `".to_owned();
            push_str(&mut m, self.exposed_headers[k].as_str());
            push_str(&mut m, "`");
            return Err(m);
        }
        if let Some(age) = self.max_age {
            if age > MAX_AGE_LIMIT {
                return Err("CORS max_age overflows i32 seconds (~68 years); pick a smaller value".to_owned());
            }
        }
        Ok(())
    }
}

/// The deployment's CORS settings: `None` keeps the base's value.
#[derive(Clone, Debug, Default)]
pub struct CorsSettings {
    /// `CORS_ORIGINS`.
    pub origins: Option<Vec<String>>,
    /// `CORS_METHODS`.
    pub methods: Option<Vec<String>>,
    /// `CORS_HEADERS`.
    pub headers: Option<Vec<String>>,
    /// `CORS_EXPOSED`.
    pub exposed_headers: Option<Vec<String>>,
    /// `CORS_CREDENTIALS`.
    pub credentials: Option<bool>,
    /// `CORS_MAX_AGE`, in seconds.
    pub max_age: Option<u64>,
}

/// A list setting laid over its base.
pub open spec fn list_over(setting: Option<Vec<String>>, base: Seq<Seq<char>>) -> Seq<Seq<char>> {
    match setting {
        Some(v) => texts(v@),
        None => base,
    }
}

/// `r` is `s` laid over `base`: each list and flag from the setting when
/// present, from the base otherwise; `None` exactly when no origin is left.
pub open spec fn cors_overlaid(base: Option<CorsConfig>, s: CorsSettings, r: Option<CorsConfig>) -> bool {
    let bc = match base { Some(c) => c.credentials, None => false };
    let ba = match base { Some(c) => c.max_age, None => None };
    let bo = match base { Some(c) => texts(c.origins@), None => Seq::empty() };
    let bm = match base { Some(c) => texts(c.methods@), None => Seq::empty() };
    let bh = match base { Some(c) => texts(c.headers@), None => Seq::empty() };
    let bx = match base { Some(c) => texts(c.exposed_headers@), None => Seq::empty() };
    let origins = list_over(s.origins, bo);
    if origins.len() == 0 {
        r is None
    } else {
        r is Some && texts(r->0.origins@) == origins
            && texts(r->0.methods@) == list_over(s.methods, bm)
            && texts(r->0.headers@) == list_over(s.headers, bh)
            && texts(r->0.exposed_headers@) == list_over(s.exposed_headers, bx)
            && r->0.credentials == (match s.credentials { Some(c) => c, None => bc })
            && r->0.max_age == (match s.max_age { Some(a) => Some(a), None => ba })
    }
}

impl CorsConfig {
    /// Lay the deployment's settings over `base` (the policy pinned in code,
    /// if any), each key on its own; `None` when no origin is left — no
    /// origins means no CORS layer.
    pub fn from_settings(base: Option<Self>, s: CorsSettings) -> (r: Option<Self>)
        ensures
            cors_overlaid(base, s, r),
    {
        let b = match base {
            Some(c) => c,
            None => CorsConfig::default(),
        };
        assert(base is None ==> texts(b.origins@) =~= Seq::<Seq<char>>::empty());
        assert(base is None ==> texts(b.methods@) =~= Seq::<Seq<char>>::empty());
        assert(base is None ==> texts(b.headers@) =~= Seq::<Seq<char>>::empty());
        assert(base is None ==> texts(b.exposed_headers@) =~= Seq::<Seq<char>>::empty());
        let origins = match s.origins {
            Some(v) => v,
            None => b.origins,
        };
        if origins.len() == 0 {
            return None;
        }
        Some(CorsConfig {
            origins,
            methods: match s.methods {
                Some(v) => v,
                None => b.methods,
            },
            headers: match s.headers {
                Some(v) => v,
                None => b.headers,
            },
            exposed_headers: match s.exposed_headers {
                Some(v) => v,
                None => b.exposed_headers,
            },
            credentials: match s.credentials {
                Some(c) => c,
                None => b.credentials,
            },
            max_age: match s.max_age {
                Some(a) => Some(a),
                None => b.max_age,
            },
        })
    }
}

proof fn lemma_no_wildcard_from(t: Seq<(Seq<char>, Seq<char>, Seq<Seq<char>>)>, i: int, k: int)
    requires
        0 <= i <= k < t.len(),
        first_wildcard(t, i) is None,
    ensures
        !t[k].2.contains(WILDCARD@),
    decreases k - i,
{
    if i < k {
        lemma_no_wildcard_from(t, i + 1, k);
    }
}

proof fn lemma_none_bad_from(items: Seq<Seq<char>>, ok: spec_fn(Seq<char>) -> bool, i: int, k: int)
    requires
        0 <= i <= k < items.len(),
        first_bad(items, ok, i) is None,
    ensures
        ok(items[k]),
    decreases k - i,
{
    if i < k {
        lemma_none_bad_from(items, ok, i + 1, k);
    }
}

/// A policy that passes the check can be served as written: with
/// credentials, no list holds `*`; every method is a token; every allowed
/// and exposed header is a header name; the preflight lifetime fits `i32`.
pub proof fn law_a_checked_policy_is_servable(c: CorsConfig)
    requires
        check_spec(c) is Ok,
    ensures
        c.credentials ==> !texts(c.origins@).contains(WILDCARD@) && !texts(c.methods@).contains(WILDCARD@)
            && !texts(c.headers@).contains(WILDCARD@) && !texts(c.exposed_headers@).contains(WILDCARD@),
        forall|k: int| 0 <= k < c.methods@.len() ==> valid_token(#[trigger] c.methods@[k]@),
        forall|k: int| 0 <= k < c.headers@.len() ==> valid_header_name(#[trigger] c.headers@[k]@),
        forall|k: int| 0 <= k < c.exposed_headers@.len() ==> valid_header_name(#[trigger] c.exposed_headers@[k]@),
        c.max_age is Some ==> c.max_age->0 <= MAX_AGE_LIMIT,
{
    let t = wildcard_table(c);
    if c.credentials {
        lemma_no_wildcard_from(t, 0, 0);
        lemma_no_wildcard_from(t, 0, 1);
        lemma_no_wildcard_from(t, 0, 2);
        lemma_no_wildcard_from(t, 0, 3);
    }
    let ms = texts(c.methods@);
    let hs = texts(c.headers@);
    let xs = texts(c.exposed_headers@);
    assert forall|k: int| 0 <= k < c.methods@.len() implies valid_token(#[trigger] c.methods@[k]@) by {
        lemma_none_bad_from(ms, |m: Seq<char>| valid_token(m), 0, k);
    }
    assert forall|k: int| 0 <= k < c.headers@.len() implies valid_header_name(#[trigger] c.headers@[k]@) by {
        lemma_none_bad_from(hs, |h: Seq<char>| valid_header_name(h), 0, k);
    }
    assert forall|k: int| 0 <= k < c.exposed_headers@.len() implies valid_header_name(
        #[trigger] c.exposed_headers@[k]@,
    ) by {
        lemma_none_bad_from(xs, |h: Seq<char>| valid_header_name(h), 0, k);
    }
}

} // verus!
