//! How mount paths are composed and canonicalised: the one place the served,
//! logged and documented addresses of a route are spelled.
use vstd::prelude::*;

use crate::text::{
    chars_of, concat, eq_chars, is_ws, string_of, trim_char, trim_char_exec, trim_end_char,
    trim_end_char_exec, trim_start_char, trim_start_char_exec, trim_ws, trim_ws_end, trim_ws_exec,
    trim_ws_start,
};

verus! {

/// `join_path`: the prefix without its trailing slashes, the rest without its
/// leading ones, joined by one `/`; two empty halves name the root.
pub open spec fn join_spec(prefix: Seq<char>, rest: Seq<char>) -> Seq<char> {
    let p = trim_end_char(prefix, '/');
    let r = trim_start_char(rest, '/');
    if p.len() == 0 && r.len() == 0 {
        seq!['/']
    } else if r.len() == 0 {
        p
    } else if p.len() == 0 {
        seq!['/'] + r
    } else {
        p + seq!['/'] + r
    }
}

/// `version_path`: `Some(v)` mounts under `/v{v}`, `None` leaves the path alone.
pub open spec fn version_spec(version: Option<Seq<char>>, path: Seq<char>) -> Seq<char> {
    match version {
        Some(v) => join_spec(seq!['/', 'v'] + v, path),
        None => path,
    }
}

/// The canonical global prefix: trimmed, slashes stripped at both ends, one
/// leading `/` put back; nothing left means no prefix.
pub open spec fn global_prefix_spec(raw: Seq<char>) -> Option<Seq<char>> {
    let t = trim_char(trim_ws(raw), '/');
    if t.len() == 0 {
        None
    } else {
        Some(seq!['/'] + t)
    }
}

/// The canonical mount path: the global-prefix form, with the root as `/`.
pub open spec fn mount_path_spec(raw: Seq<char>) -> Seq<char> {
    match global_prefix_spec(raw) {
        Some(p) => p,
        None => seq!['/'],
    }
}

/// Every version `named` lists is one `declared` lists.
pub open spec fn declares_all(declared: Seq<Seq<char>>, named: Seq<Seq<char>>) -> bool {
    forall|i: int| 0 <= i < named.len() ==> #[trigger] declared.contains(named[i])
}

/// The path a trailing slash should have been written as; `None` when the
/// path is already canonical.
pub open spec fn canonical_spec(path: Seq<char>) -> Option<Seq<char>> {
    if path.len() == 0 || path.last() != '/' || path == seq!['/'] {
        None
    } else {
        let t = trim_end_char(path, '/');
        if t.len() == 0 {
            Some(seq!['/'])
        } else {
            Some(t)
        }
    }
}

/// Join a controller prefix with a route path the way the router nests them:
/// `("/health", "/live")` gives `"/health/live"`.
pub fn join_path(prefix: &str, rest: &str) -> (r: String)
    ensures
        r@ == join_spec(prefix@, rest@),
{
    let pv = chars_of(prefix);
    let rv = chars_of(rest);
    join_chars(&pv, &rv)
}

/// [`join_path`] over characters.
pub fn join_chars(prefix: &[char], rest: &[char]) -> (r: String)
    ensures
        r@ == join_spec(prefix@, rest@),
{
    let p = trim_end_char_exec(prefix, '/');
    let r = trim_start_char_exec(rest, '/');
    let slash: Vec<char> = vec!['/'];
    let joined = if p.len() == 0 && r.len() == 0 {
        slash
    } else if r.len() == 0 {
        p
    } else if p.len() == 0 {
        concat(&slash, &r)
    } else {
        let head = concat(&p, &slash);
        concat(&head, &r)
    };
    string_of(&joined)
}

/// Apply URI API versioning: `Some("1"), "/users"` gives `"/v1/users"`.
pub fn version_path(version: Option<&str>, path: &str) -> (r: String)
    ensures
        r@ == version_spec(
            match version {
                Some(v) => Some(v@),
                None => None,
            },
            path@,
        ),
{
    match version {
        Some(v) => {
            let vv = chars_of(v);
            let pv = chars_of(path);
            let head: Vec<char> = vec!['/', 'v'];
            let prefix = concat(&head, &vv);
            join_chars(&prefix, &pv)
        },
        None => {
            let pv = chars_of(path);
            string_of(&pv)
        },
    }
}

/// Whether two strings are the same text.
pub fn str_eq(a: &str, b: &str) -> (r: bool)
    ensures
        r == (a@ == b@),
{
    let av = chars_of(a);
    let bv = chars_of(b);
    eq_chars(&av, &bv)
}

/// Does `declared` contain every version in `named`? An empty `named` is
/// always declared.
pub fn versions_declare(declared: &[&str], named: &[&str]) -> (r: bool)
    ensures
        r == declares_all(declared@.map_values(|s: &str| s@), named@.map_values(|s: &str| s@)),
{
    let ghost d = declared@.map_values(|s: &str| s@);
    let ghost n = named@.map_values(|s: &str| s@);
    let mut i: usize = 0;
    while i < named.len()
        invariant
            i <= named.len(),
            d == declared@.map_values(|s: &str| s@),
            n == named@.map_values(|s: &str| s@),
            forall|k: int| 0 <= k < i ==> #[trigger] d.contains(n[k]),
        decreases named.len() - i,
    {
        let mut found = false;
        let mut j: usize = 0;
        while j < declared.len() && !found
            invariant
                i < named.len(),
                j <= declared.len(),
                d == declared@.map_values(|s: &str| s@),
                n == named@.map_values(|s: &str| s@),
                d.len() == declared@.len(),
                !found ==> forall|k: int| 0 <= k < j ==> d[k] != n[i as int],
                found ==> d.contains(n[i as int]),
            decreases declared.len() - j + (if found { 0int } else { 1int }),
        {
            if str_eq(declared[j], named[i]) {
                found = true;
                assert(d[j as int] == n[i as int]);
            } else {
                j = j + 1;
            }
        }
        if !found {
            assert(!d.contains(n[i as int]));
            return false;
        }
        i = i + 1;
    }
    true
}

/// Normalize a global prefix: trimmed, empty or `"/"` dropped to `None`, one
/// leading `/`, no trailing one.
pub fn normalize_global_prefix(raw: &str) -> (r: Option<String>)
    ensures
        match r {
            Some(s) => global_prefix_spec(raw@) == Some(s@),
            None => global_prefix_spec(raw@) is None,
        },
{
    let v = chars_of(raw);
    let t = trim_ws_exec(&v);
    let t = trim_char_exec(&t, '/');
    if t.len() == 0 {
        return None;
    }
    let slash: Vec<char> = vec!['/'];
    let joined = concat(&slash, &t);
    Some(string_of(&joined))
}

/// The canonical form of a mount path: `"/x"`, with the root as `"/"`.
pub fn normalize_mount_path(raw: &str) -> (r: String)
    ensures
        r@ == mount_path_spec(raw@),
{
    match normalize_global_prefix(raw) {
        Some(path) => path,
        None => string_of(&['/']),
    }
}

/// The path a trailing slash should have been written as, or `None` when the
/// path is already canonical: `/kitchen/` gives `/kitchen`, `//` gives `/`.
pub fn canonical_path(path: &str) -> (r: Option<String>)
    ensures
        match r {
            Some(s) => canonical_spec(path@) == Some(s@),
            None => canonical_spec(path@) is None,
        },
{
    let v = chars_of(path);
    if v.len() == 0 || v[v.len() - 1] != '/' || (v.len() == 1) {
        proof {
            if v@.len() == 1 && v@.last() == '/' {
                assert(path@ == seq!['/']);
            }
        }
        return None;
    }
    assert(path@ != seq!['/']);
    let t = trim_end_char_exec(&v, '/');
    if t.len() == 0 {
        Some(string_of(&['/']))
    } else {
        Some(string_of(&t))
    }
}

proof fn lemma_trim_end_prefix(s: Seq<char>, c: char)
    ensures
        trim_end_char(s, c) == s.take(trim_end_char(s, c).len() as int),
        trim_end_char(s, c).len() <= s.len(),
        trim_end_char(s, c).len() > 0 ==> trim_end_char(s, c).last() != c,
    decreases s.len(),
{
    if s.len() > 0 && s.last() == c {
        lemma_trim_end_prefix(s.drop_last(), c);
        let t = trim_end_char(s.drop_last(), c);
        assert(s.drop_last().take(t.len() as int) == s.take(t.len() as int));
    } else {
        assert(s.take(s.len() as int) == s);
    }
}

proof fn lemma_trim_start_suffix(s: Seq<char>, c: char)
    ensures
        trim_start_char(s, c) == s.skip(s.len() - trim_start_char(s, c).len()),
        trim_start_char(s, c).len() <= s.len(),
        trim_start_char(s, c).len() > 0 ==> trim_start_char(s, c)[0] != c,
    decreases s.len(),
{
    if s.len() > 0 && s[0] == c {
        lemma_trim_start_suffix(s.drop_first(), c);
        let t = trim_start_char(s.drop_first(), c);
        assert(s.drop_first().skip(s.len() - 1 - t.len()) == s.skip(s.len() - t.len()));
    } else {
        assert(s.skip(0) == s);
    }
}

proof fn lemma_trim_ws_end_prefix(s: Seq<char>)
    ensures
        trim_ws_end(s) == s.take(trim_ws_end(s).len() as int),
        trim_ws_end(s).len() <= s.len(),
    decreases s.len(),
{
    if s.len() > 0 && is_ws(s.last()) {
        lemma_trim_ws_end_prefix(s.drop_last());
        let t = trim_ws_end(s.drop_last());
        assert(s.drop_last().take(t.len() as int) == s.take(t.len() as int));
    } else {
        assert(s.take(s.len() as int) == s);
    }
}

proof fn lemma_trim_ws_start_suffix(s: Seq<char>)
    ensures
        trim_ws_start(s) == s.skip(s.len() - trim_ws_start(s).len()),
        trim_ws_start(s).len() <= s.len(),
    decreases s.len(),
{
    if s.len() > 0 && is_ws(s[0]) {
        lemma_trim_ws_start_suffix(s.drop_first());
        let t = trim_ws_start(s.drop_first());
        assert(s.drop_first().skip(s.len() - 1 - t.len()) == s.skip(s.len() - t.len()));
    } else {
        assert(s.skip(0) == s);
    }
}

/// No character of `s` is whitespace.
pub open spec fn no_ws(s: Seq<char>) -> bool {
    forall|i: int| 0 <= i < s.len() ==> !is_ws(#[trigger] s[i])
}

/// A trailing `/` on the prefix, or a leading one on the rest, changes
/// nothing: `("/health/", "live")` and `("/health", "/live")` join alike.
pub proof fn law_join_ignores_the_seam_slash(prefix: Seq<char>, rest: Seq<char>)
    ensures
        join_spec(prefix.push('/'), rest) == join_spec(prefix, rest),
        join_spec(prefix, seq!['/'] + rest) == join_spec(prefix, rest),
{
    assert(prefix.push('/').drop_last() == prefix);
    assert((seq!['/'] + rest).drop_first() == rest);
}

/// What `canonical_path` answers is canonical: a second pass has nothing
/// to trim.
pub proof fn law_canonical_path_is_a_fixed_point(path: Seq<char>)
    ensures
        canonical_spec(path) matches Some(t) ==> canonical_spec(t) is None,
{
    lemma_trim_end_prefix(path, '/');
}

/// The canonical mount path is a fixed point of the canonicalisation, and
/// `"/x/"` and `"/x"` name one owner — for any path free of whitespace. (A
/// space before the slash, as in `"/x /"`, keeps its first pass from being
/// final.)
pub proof fn law_mount_paths_are_canonical(raw: Seq<char>)
    requires
        no_ws(raw),
    ensures
        mount_path_spec(mount_path_spec(raw)) == mount_path_spec(raw),
        mount_path_spec(raw.push('/')) == mount_path_spec(raw),
{
    lemma_trim_ws_end_prefix(raw);
    lemma_trim_ws_start_suffix(trim_ws_end(raw));
    let w = trim_ws(raw);
    assert(w == raw.take(trim_ws_end(raw).len() as int).skip(trim_ws_end(raw).len() - w.len()));
    assert(no_ws(w)) by {
        assert forall|i: int| 0 <= i < w.len() implies !is_ws(#[trigger] w[i]) by {
            assert(w[i] == raw[trim_ws_end(raw).len() - w.len() + i]);
        }
    }
    // Without whitespace the trims are the identity.
    assert(trim_ws_end(raw) == raw);
    assert(trim_ws_start(raw) == raw);
    assert(w == raw);
    lemma_trim_end_prefix(raw, '/');
    let e = trim_end_char(raw, '/');
    lemma_trim_start_suffix(e, '/');
    let t = trim_start_char(e, '/');
    assert(t == trim_char(raw, '/'));
    assert(no_ws(t)) by {
        assert forall|i: int| 0 <= i < t.len() implies !is_ws(#[trigger] t[i]) by {
            assert(t[i] == e[e.len() - t.len() + i]);
            assert(e[e.len() - t.len() + i] == raw[e.len() - t.len() + i]);
        }
    }
    if t.len() > 0 {
        assert(t.last() == e.last());
        let m = seq!['/'] + t;
        assert(mount_path_spec(raw) == m);
        assert(m.last() == t.last() && m.last() != '/');
        assert(!is_ws(m.last()));
        assert(!is_ws(m[0]));
        assert(trim_ws_end(m) == m);
        assert(trim_ws_start(m) == m);
        assert(trim_end_char(m, '/') == m);
        assert(m.drop_first() == t);
        assert(trim_start_char(t, '/') == t);
        assert(trim_start_char(m, '/') == t);
    } else {
        assert(mount_path_spec(raw) == seq!['/']);
        let m = seq!['/'];
        assert(trim_ws_end(m) == m);
        assert(trim_ws_start(m) == m);
        assert(m.drop_last() =~= Seq::<char>::empty());
        assert(trim_end_char(Seq::<char>::empty(), '/') == Seq::<char>::empty());
        assert(trim_end_char(m, '/') == Seq::<char>::empty());
        assert(trim_start_char(Seq::<char>::empty(), '/') == Seq::<char>::empty());
    }
    // A trailing slash joins the run `trim_matches` removes.
    let r2 = raw.push('/');
    assert(no_ws(r2)) by {
        assert forall|i: int| 0 <= i < r2.len() implies !is_ws(#[trigger] r2[i]) by {
            if i < raw.len() {
                assert(r2[i] == raw[i]);
            }
        }
    }
    assert(r2.last() == '/');
    assert(!is_ws(r2.last()));
    assert(trim_ws_end(r2) == r2);
    if r2[0] != '/' {
        assert(!is_ws(r2[0]));
    }
    assert(!is_ws(r2[0]));
    assert(trim_ws_start(r2) == r2);
    assert(r2.drop_last() == raw);
    assert(trim_end_char(r2, '/') == trim_end_char(raw, '/'));
}

proof fn lemma_no_ws_trim(s: Seq<char>)
    requires
        no_ws(s),
    ensures
        trim_ws(s) == s,
{
    if s.len() > 0 {
        assert(!is_ws(s[s.len() - 1]));
        assert(!is_ws(s[0]));
    }
}

proof fn lemma_trim_end_after_slash(s: Seq<char>)
    ensures
        trim_end_char(seq!['/'] + s, '/') == (if trim_end_char(s, '/').len() == 0 {
            Seq::<char>::empty()
        } else {
            seq!['/'] + trim_end_char(s, '/')
        }),
    decreases s.len(),
{
    let w = seq!['/'] + s;
    if s.len() == 0 {
        assert(w.drop_last() =~= Seq::<char>::empty());
        assert(trim_end_char(Seq::<char>::empty(), '/') == Seq::<char>::empty());
        assert(w.last() == '/');
        assert(trim_end_char(w, '/') == trim_end_char(w.drop_last(), '/'));
        assert(trim_end_char(s, '/') == s);
    } else if s.last() == '/' {
        assert(w.drop_last() =~= seq!['/'] + s.drop_last());
        assert(w.last() == s.last());
        lemma_trim_end_after_slash(s.drop_last());
    } else {
        assert(w.last() == s.last());
        assert(trim_end_char(s, '/') == s);
        assert(trim_end_char(w, '/') == w);
    }
}

/// A mount path is one key however its slashes were written: the canonical
/// form starts with `/`, is the root or ends in no `/` and doubles no leading
/// one, is its own canonical form, and wrapping the raw path in slashes
/// changes nothing — so `""`, `"/"` and `"//"` are all `"/"`, and `"x"`,
/// `"/x"` and `"/x/"` one owner. For any path free of whitespace.
pub proof fn law_a_mount_path_is_one_key(raw: Seq<char>)
    requires
        no_ws(raw),
    ensures
        mount_path_spec(raw).len() > 0 && mount_path_spec(raw)[0] == '/',
        mount_path_spec(raw) == seq!['/'] || (mount_path_spec(raw).last() != '/' && mount_path_spec(raw)[1] != '/'),
        mount_path_spec(mount_path_spec(raw)) == mount_path_spec(raw),
        mount_path_spec(seq!['/'] + raw + seq!['/']) == mount_path_spec(raw),
{
    law_mount_paths_are_canonical(raw);
    lemma_no_ws_trim(raw);
    let w = seq!['/'] + raw + seq!['/'];
    assert(no_ws(w)) by {
        assert forall|i: int| 0 <= i < w.len() implies !is_ws(#[trigger] w[i]) by {
            if 0 < i < w.len() - 1 {
                assert(w[i] == raw[i - 1]);
            }
        }
    }
    lemma_no_ws_trim(w);
    assert(w.drop_last() =~= seq!['/'] + raw);
    assert(trim_end_char(w, '/') == trim_end_char(seq!['/'] + raw, '/'));
    lemma_trim_end_after_slash(raw);
    let e = trim_end_char(raw, '/');
    lemma_trim_end_prefix(raw, '/');
    lemma_trim_start_suffix(e, '/');
    if e.len() > 0 {
        assert((seq!['/'] + e).drop_first() =~= e);
        assert(trim_start_char(seq!['/'] + e, '/') == trim_start_char(e, '/'));
    }
    let t = trim_start_char(e, '/');
    assert(trim_char(raw, '/') == t);
    assert(trim_char(w, '/') == t);
    if t.len() > 0 {
        assert(t.last() == e.last());
        let m = seq!['/'] + t;
        assert(m[1] == t[0]);
        assert(m.last() == t.last());
    }
}

proof fn lemma_trim_end_cat(x: Seq<char>, y: Seq<char>)
    ensures
        trim_end_char(x + y, '/') == (if trim_end_char(y, '/').len() > 0 {
            x + trim_end_char(y, '/')
        } else {
            trim_end_char(x, '/')
        }),
    decreases y.len(),
{
    if y.len() == 0 {
        assert(x + y =~= x);
    } else if y.last() == '/' {
        assert((x + y).drop_last() =~= x + y.drop_last());
        assert((x + y).last() == '/');
        lemma_trim_end_cat(x, y.drop_last());
    } else {
        assert((x + y).last() == y.last());
    }
}

proof fn lemma_trim_start_cat(x: Seq<char>, y: Seq<char>)
    ensures
        trim_start_char(x + y, '/') == (if trim_start_char(x, '/').len() > 0 {
            trim_start_char(x, '/') + y
        } else {
            trim_start_char(y, '/')
        }),
    decreases x.len(),
{
    if x.len() == 0 {
        assert(x + y =~= y);
    } else if x[0] == '/' {
        assert((x + y).drop_first() =~= x.drop_first() + y);
        assert((x + y)[0] == '/');
        lemma_trim_start_cat(x.drop_first(), y);
    } else {
        assert((x + y)[0] == x[0]);
    }
}

proof fn lemma_trim_end_keeps_first(s: Seq<char>)
    requires
        s.len() > 0,
        s[0] != '/',
    ensures
        trim_end_char(s, '/').len() > 0,
        trim_end_char(s, '/')[0] == s[0],
    decreases s.len(),
{
    if s.last() == '/' {
        lemma_trim_end_keeps_first(s.drop_last());
    }
}

proof fn lemma_trim_start_keeps_last(s: Seq<char>)
    requires
        s.len() > 0,
        s.last() != '/',
    ensures
        trim_start_char(s, '/').len() > 0,
        trim_start_char(s, '/').last() == s.last(),
    decreases s.len(),
{
    if s[0] == '/' {
        lemma_trim_start_keeps_last(s.drop_first());
    }
}

proof fn lemma_trims_commute(s: Seq<char>)
    ensures
        trim_start_char(trim_end_char(s, '/'), '/') == trim_end_char(trim_start_char(s, '/'), '/'),
    decreases s.len(),
{
    if s.len() == 0 {
    } else if s[0] == '/' {
        let t = s.drop_first();
        lemma_trims_commute(t);
        assert(s =~= seq!['/'] + t);
        lemma_trim_end_after_slash(t);
        let e = trim_end_char(t, '/');
        if e.len() > 0 {
            assert((seq!['/'] + e).drop_first() =~= e);
        }
    } else {
        lemma_trim_end_keeps_first(s);
    }
}

/// Joining is associative: composing a global prefix, a controller path
/// and a route path gives one answer however the three are grouped; and an
/// empty rest joins like `"/"`.
pub proof fn law_join_is_associative(a: Seq<char>, b: Seq<char>, c: Seq<char>)
    ensures
        join_spec(join_spec(a, b), c) == join_spec(a, join_spec(b, c)),
        join_spec(a, Seq::empty()) == join_spec(a, seq!['/']),
{
    assert(seq!['/'].drop_first() =~= Seq::<char>::empty());
    assert(seq!['/'].drop_last() =~= Seq::<char>::empty());
    let pa = trim_end_char(a, '/');
    let rb = trim_start_char(b, '/');
    let qb = trim_end_char(b, '/');
    let rc = trim_start_char(c, '/');
    let q = trim_end_char(rb, '/');
    let m = trim_start_char(qb, '/');
    lemma_trim_end_prefix(a, '/');
    lemma_trim_start_suffix(b, '/');
    lemma_trim_end_prefix(b, '/');
    lemma_trim_start_suffix(c, '/');
    lemma_trims_commute(b);
    assert(m == q);
    if rb.len() > 0 {
        lemma_trim_end_keeps_first(rb);
    }
    if qb.len() > 0 {
        lemma_trim_start_keeps_last(qb);
    }
    lemma_trim_end_prefix(rb, '/');
    // The prefix side: what the left join leaves before its seam.
    let x = join_spec(a, b);
    let ex = trim_end_char(x, '/');
    if pa.len() == 0 && rb.len() == 0 {
        assert(x == seq!['/']);
        assert(trim_end_char(Seq::<char>::empty(), '/') == Seq::<char>::empty());
        assert(ex == trim_end_char(x.drop_last(), '/'));
        assert(ex.len() == 0);
    } else if rb.len() == 0 {
        assert(x == pa);
        assert(ex == pa);
    } else if pa.len() == 0 {
        lemma_trim_end_after_slash(rb);
        assert(ex == seq!['/'] + q);
    } else {
        assert(x =~= (pa + seq!['/']) + rb);
        lemma_trim_end_cat(pa + seq!['/'], rb);
        assert(ex == pa + seq!['/'] + q);
    }
    // The rest side: what the right join leaves after its seam.
    let y = join_spec(b, c);
    let sy = trim_start_char(y, '/');
    if qb.len() == 0 && rc.len() == 0 {
        assert(y == seq!['/']);
        assert(trim_start_char(Seq::<char>::empty(), '/') == Seq::<char>::empty());
        assert(sy == trim_start_char(y.drop_first(), '/'));
        assert(sy.len() == 0);
    } else if rc.len() == 0 {
        assert(y == qb);
        assert(sy == m);
    } else if qb.len() == 0 {
        assert((seq!['/'] + rc).drop_first() =~= rc);
        assert(sy == trim_start_char(rc, '/'));
        assert(sy == rc);
    } else {
        assert(y =~= qb + (seq!['/'] + rc));
        lemma_trim_start_cat(qb, seq!['/'] + rc);
        assert(sy =~= m + seq!['/'] + rc);
    }
    let lhs = join_spec(x, c);
    let rhs = join_spec(a, y);
    if pa.len() > 0 && q.len() > 0 && rc.len() > 0 {
        assert(lhs =~= pa + seq!['/'] + q + seq!['/'] + rc);
        assert(rhs =~= pa + seq!['/'] + (q + seq!['/'] + rc));
    } else if pa.len() == 0 && q.len() > 0 && rc.len() > 0 {
        assert(lhs =~= seq!['/'] + q + seq!['/'] + rc);
        assert(rhs =~= seq!['/'] + (q + seq!['/'] + rc));
    }
}

/// Entry `j` of `declared` is `v`.
pub open spec fn declared_at(declared: Seq<Seq<char>>, j: int, v: Seq<char>) -> bool {
    0 <= j < declared.len() && declared[j] == v
}

/// `v` is, by index, some entry of `declared`.
pub open spec fn is_declared(declared: Seq<Seq<char>>, v: Seq<char>) -> bool {
    exists|j: int| #[trigger] declared_at(declared, j, v)
}

/// Each of `named` is, by index, some entry of `declared`.
pub open spec fn each_named_is_declared(declared: Seq<Seq<char>>, named: Seq<Seq<char>>) -> bool {
    forall|i: int| 0 <= i < named.len() ==> #[trigger] is_declared(declared, named[i])
}

/// Every version a route names is one its controller declares, in index
/// form: each named version equals some declared one; an empty list of
/// named versions is always declared.
pub proof fn law_every_named_version_is_declared(declared: Seq<Seq<char>>, named: Seq<Seq<char>>)
    ensures
        declares_all(declared, named) <==> each_named_is_declared(declared, named),
        declares_all(declared, Seq::empty()),
{
    if declares_all(declared, named) {
        assert forall|i: int| 0 <= i < named.len() implies #[trigger] is_declared(declared, named[i]) by {
            assert(declared.contains(named[i]));
            let j = choose|j: int| 0 <= j < declared.len() && declared[j] == named[i];
            assert(declared_at(declared, j, named[i]));
        }
    }
    if each_named_is_declared(declared, named) {
        assert forall|i: int| 0 <= i < named.len() implies #[trigger] declared.contains(named[i]) by {
            assert(is_declared(declared, named[i]));
            let j = choose|j: int| #[trigger] declared_at(declared, j, named[i]);
            assert(declared[j] == named[i]);
        }
    }
}

} // verus!
