//! `Allow`: the method set a route table serves, carried to the `405` that
//! has to name it (RFC 9110 §15.5.6). `HEAD` is advertised beside every
//! `GET`, because the router answers it through the `GET` endpoint; nothing
//! else is advertised that was not registered.
use vstd::prelude::*;

use crate::paths::str_eq;
use crate::text::{join_strings, join_with};
use crate::versioning::texts;

verus! {

/// The methods a route table advertises, in declaration order, `HEAD` right
/// after a `GET` when `HEAD` is not registered itself (`all` is every
/// registered method).
pub open spec fn advertised_from(all: Seq<Seq<char>>, ms: Seq<Seq<char>>) -> Seq<Seq<char>>
    decreases ms.len(),
{
    if ms.len() == 0 {
        Seq::empty()
    } else {
        let before = advertised_from(all, ms.drop_last()).push(ms.last());
        if ms.last() == "GET"@ && !all.contains("HEAD"@) {
            before.push("HEAD"@)
        } else {
            before
        }
    }
}

/// The methods a table registering `ms` advertises.
pub open spec fn advertised(ms: Seq<Seq<char>>) -> Seq<Seq<char>> {
    advertised_from(ms, ms)
}

/// The verbs registered on one path, remembered so the `405` the router
/// answers there can carry `Allow`. The endpoints themselves are the
/// router's; this is the list that advertises them.
#[derive(Clone, Debug)]
pub struct MethodTable {
    allowed: Vec<String>,
}

impl View for MethodTable {
    type V = Seq<Seq<char>>;

    closed spec fn view(&self) -> Seq<Seq<char>> {
        texts(self.allowed@)
    }
}

impl Default for MethodTable {
    fn default() -> (r: Self)
        ensures
            r@ == Seq::<Seq<char>>::empty(),
    {
        Self::new()
    }
}

impl MethodTable {
    /// An empty table: no verb registered, nothing advertised.
    pub fn new() -> (r: Self)
        ensures
            r@ == Seq::<Seq<char>>::empty(),
    {
        let r = MethodTable { allowed: Vec::new() };
        assert(r@ =~= Seq::<Seq<char>>::empty());
        r
    }

    /// Whether no verb has been registered.
    pub fn is_empty(&self) -> (r: bool)
        ensures
            r == (self@.len() == 0),
    {
        self.allowed.len() == 0
    }

    /// Record `method` (its token, e.g. `"PUT"`).
    pub fn method(self, method: &str) -> (r: Self)
        ensures
            r@ == self@.push(method@),
    {
        let mut allowed = self.allowed;
        let ghost before = texts(allowed@);
        allowed.push(method.to_owned());
        assert(texts(allowed@) == before.push(method@));
        MethodTable { allowed }
    }

    /// Record `GET` — which also makes `HEAD` supported.
    pub fn get(self) -> (r: Self)
        ensures
            r@ == self@.push("GET"@),
    {
        self.method("GET")
    }

    /// Record `POST`.
    pub fn post(self) -> (r: Self)
        ensures
            r@ == self@.push("POST"@),
    {
        self.method("POST")
    }

    /// Record `PUT`.
    pub fn put(self) -> (r: Self)
        ensures
            r@ == self@.push("PUT"@),
    {
        self.method("PUT")
    }

    /// Record `DELETE`.
    pub fn delete(self) -> (r: Self)
        ensures
            r@ == self@.push("DELETE"@),
    {
        self.method("DELETE")
    }

    /// Record `PATCH`.
    pub fn patch(self) -> (r: Self)
        ensures
            r@ == self@.push("PATCH"@),
    {
        self.method("PATCH")
    }

    /// The `Allow` field value: the registered verbs in declaration order,
    /// with `HEAD` beside the `GET` that implies it.
    pub fn allow_value(&self) -> (r: String)
        ensures
            r@ == join_with(advertised(self@), ", "@),
    {
        let ghost all = texts(self.allowed@);
        let mut has_head = false;
        let mut k: usize = 0;
        while k < self.allowed.len()
            invariant
                k <= self.allowed.len(),
                all == texts(self.allowed@),
                has_head == exists|j: int| 0 <= j < k && #[trigger] all[j] == "HEAD"@,
            decreases self.allowed.len() - k,
        {
            if str_eq(self.allowed[k].as_str(), "HEAD") {
                assert(all[k as int] == "HEAD"@);
                has_head = true;
            } else {
                assert(all[k as int] != "HEAD"@);
            }
            k = k + 1;
        }
        assert(has_head == all.contains("HEAD"@));
        let mut names: Vec<String> = Vec::new();
        let mut i: usize = 0;
        while i < self.allowed.len()
            invariant
                i <= self.allowed.len(),
                all == texts(self.allowed@),
                has_head == all.contains("HEAD"@),
                texts(names@) == advertised_from(all, all.take(i as int)),
            decreases self.allowed.len() - i,
        {
            assert(all.take(i + 1).drop_last() == all.take(i as int));
            assert(all.take(i + 1).last() == all[i as int]);
            let m = self.allowed[i].as_str();
            let ghost before = texts(names@);
            names.push(m.to_owned());
            assert(texts(names@) == before.push(m@));
            if str_eq(m, "GET") && !has_head {
                names.push("HEAD".to_owned());
                assert(texts(names@) == before.push(m@).push("HEAD"@));
            }
            i = i + 1;
        }
        assert(all.take(self.allowed.len() as int) == all);
        assert(names@.map_values(|p: String| p@) == texts(names@));
        join_strings(&names, ", ")
    }
}

/// What a table advertises: every registered verb, and `HEAD` exactly when
/// `GET` is registered without it — nothing else.
pub proof fn lemma_advertised_members(all: Seq<Seq<char>>, ms: Seq<Seq<char>>, x: Seq<char>)
    ensures
        advertised_from(all, ms).contains(x) <==> (ms.contains(x) || (x == "HEAD"@ && ms.contains("GET"@)
            && !all.contains("HEAD"@))),
    decreases ms.len(),
{
    if ms.len() > 0 {
        lemma_advertised_members(all, ms.drop_last(), x);
        let before = advertised_from(all, ms.drop_last());
        let init = ms.drop_last();
        assert(ms == init.push(ms.last()));
        if init.contains(x) {
            let k = choose|k: int| 0 <= k < init.len() && init[k] == x;
            assert(ms[k] == x);
        }
        if init.contains("GET"@) {
            let k = choose|k: int| 0 <= k < init.len() && init[k] == "GET"@;
            assert(ms[k] == "GET"@);
        }
        if ms.contains(x) && x != ms.last() {
            let k = choose|k: int| 0 <= k < ms.len() && ms[k] == x;
            assert(init[k] == x);
        }
        if ms.contains("GET"@) && ms.last() != "GET"@ {
            let k = choose|k: int| 0 <= k < ms.len() && ms[k] == "GET"@;
            assert(init[k] == "GET"@);
        }
        let b1 = before.push(ms.last());
        assert(b1[b1.len() - 1] == ms.last());
        if before.contains(x) {
            let k = choose|k: int| 0 <= k < before.len() && before[k] == x;
            assert(b1[k] == x);
        }
        if b1.contains(x) && x != ms.last() {
            let k = choose|k: int| 0 <= k < b1.len() && b1[k] == x;
            assert(before[k] == x);
        }
        if ms.last() == "GET"@ && !all.contains("HEAD"@) {
            let b2 = b1.push("HEAD"@);
            assert(b2[b2.len() - 1] == "HEAD"@);
            if b1.contains(x) {
                let k = choose|k: int| 0 <= k < b1.len() && b1[k] == x;
                assert(b2[k] == x);
            }
            if b2.contains(x) && x != "HEAD"@ {
                let k = choose|k: int| 0 <= k < b2.len() && b2[k] == x;
                assert(b1[k] == x);
            }
        }
    }
}

/// `HEAD` is advertised exactly when `GET` or `HEAD` itself is registered.
pub proof fn law_head_is_advertised_with_get(ms: Seq<Seq<char>>)
    ensures
        advertised(ms).contains("HEAD"@) <==> (ms.contains("GET"@) || ms.contains("HEAD"@)),
{
    lemma_advertised_members(ms, ms, "HEAD"@);
}

/// A table advertises no method it was not given, `HEAD` aside — `OPTIONS`
/// among them.
pub proof fn law_nothing_else_is_advertised(ms: Seq<Seq<char>>, x: Seq<char>)
    requires
        x != "HEAD"@,
    ensures
        advertised(ms).contains(x) <==> ms.contains(x),
{
    lemma_advertised_members(ms, ms, x);
}

} // verus!
