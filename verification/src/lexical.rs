//! The order `String` sorts by: character by character, a proper prefix
//! first. (UTF-8 preserves code-point order, so comparing the bytes and
//! comparing the characters agree.)
use vstd::prelude::*;

verus! {

/// `a` sorts strictly before `b`.
pub open spec fn lex_lt(a: Seq<char>, b: Seq<char>) -> bool
    decreases a.len(),
{
    if a.len() == 0 {
        b.len() > 0
    } else if b.len() == 0 {
        false
    } else if a[0] != b[0] {
        a[0] < b[0]
    } else {
        lex_lt(a.drop_first(), b.drop_first())
    }
}

/// Every element sorts strictly before every later one: ascending, and
/// nothing twice.
pub open spec fn strictly_sorted(s: Seq<Seq<char>>) -> bool {
    forall|i: int, j: int| 0 <= i < j < s.len() ==> lex_lt(#[trigger] s[i], #[trigger] s[j])
}

/// Nothing sorts before itself.
pub proof fn lemma_lex_irreflexive(a: Seq<char>)
    ensures
        !lex_lt(a, a),
    decreases a.len(),
{
    if a.len() > 0 {
        lemma_lex_irreflexive(a.drop_first());
    }
}

/// Two different texts are ordered one way or the other.
pub proof fn lemma_lex_total(a: Seq<char>, b: Seq<char>)
    requires
        a != b,
    ensures
        lex_lt(a, b) || lex_lt(b, a),
    decreases a.len(),
{
    if a.len() > 0 && b.len() > 0 && a[0] == b[0] {
        if a.drop_first() == b.drop_first() {
            assert(a == seq![a[0]] + a.drop_first());
            assert(b == seq![b[0]] + b.drop_first());
        }
        lemma_lex_total(a.drop_first(), b.drop_first());
    } else if a.len() == 0 && b.len() == 0 {
        assert(a == b);
    }
}

/// The order never runs both ways.
pub proof fn lemma_lex_asymmetric(a: Seq<char>, b: Seq<char>)
    requires
        lex_lt(a, b),
    ensures
        !lex_lt(b, a),
    decreases a.len(),
{
    if a.len() > 0 && b.len() > 0 && a[0] == b[0] {
        lemma_lex_asymmetric(a.drop_first(), b.drop_first());
    }
}

/// The order is transitive.
pub proof fn lemma_lex_transitive(a: Seq<char>, b: Seq<char>, c: Seq<char>)
    requires
        lex_lt(a, b),
        lex_lt(b, c),
    ensures
        lex_lt(a, c),
    decreases a.len(),
{
    if a.len() > 0 && b.len() > 0 && c.len() > 0 && a[0] == b[0] && b[0] == c[0] {
        lemma_lex_transitive(a.drop_first(), b.drop_first(), c.drop_first());
    }
}

/// Whether `a` sorts strictly before `b`.
pub fn chars_lt(a: &[char], b: &[char]) -> (r: bool)
    ensures
        r == lex_lt(a@, b@),
{
    let mut i: usize = 0;
    assert(a@.skip(0) == a@ && b@.skip(0) == b@);
    while i < a.len() && i < b.len() && a[i] == b[i]
        invariant
            i <= a.len(),
            i <= b.len(),
            lex_lt(a@, b@) == lex_lt(a@.skip(i as int), b@.skip(i as int)),
        decreases a.len() - i,
    {
        assert(a@.skip(i as int).drop_first() == a@.skip(i + 1));
        assert(b@.skip(i as int).drop_first() == b@.skip(i + 1));
        i = i + 1;
    }
    assert(a@.skip(i as int).len() == a.len() - i && b@.skip(i as int).len() == b.len() - i);
    if i == a.len() {
        i < b.len()
    } else if i == b.len() {
        false
    } else {
        a[i] < b[i]
    }
}

/// Two ascending, repeat-free lists of the same texts are the same list.
pub proof fn lemma_sorted_unique(a: Seq<Seq<char>>, b: Seq<Seq<char>>)
    requires
        strictly_sorted(a),
        strictly_sorted(b),
        forall|x: Seq<char>| #[trigger] a.contains(x) <==> b.contains(x),
    ensures
        a == b,
    decreases a.len(),
{
    if a.len() == 0 {
        if b.len() > 0 {
            assert(b.contains(b[0]));
            assert(a.contains(b[0]));
        }
        assert(a =~= b);
        return;
    }
    if b.len() == 0 {
        assert(a.contains(a[0]));
        assert(b.contains(a[0]));
        return;
    }
    assert(a.contains(a[0]));
    assert(b.contains(a[0]));
    assert(b.contains(b[0]));
    assert(a.contains(b[0]));
    let k = choose|k: int| 0 <= k < b.len() && b[k] == a[0];
    let m = choose|m: int| 0 <= m < a.len() && a[m] == b[0];
    if k > 0 {
        assert(lex_lt(b[0], b[k]));
        if m > 0 {
            assert(lex_lt(a[0], a[m]));
            lemma_lex_asymmetric(b[0], a[0]);
        } else {
            lemma_lex_irreflexive(a[0]);
        }
    }
    assert(a[0] == b[0]);
    let a1 = a.drop_first();
    let b1 = b.drop_first();
    assert forall|i: int, j: int| 0 <= i < j < a1.len() implies lex_lt(#[trigger] a1[i], #[trigger] a1[j]) by {
        assert(a1[i] == a[i + 1] && a1[j] == a[j + 1]);
    }
    assert forall|i: int, j: int| 0 <= i < j < b1.len() implies lex_lt(#[trigger] b1[i], #[trigger] b1[j]) by {
        assert(b1[i] == b[i + 1] && b1[j] == b[j + 1]);
    }
    assert forall|x: Seq<char>| #[trigger] a1.contains(x) <==> b1.contains(x) by {
        if a1.contains(x) {
            let i = choose|i: int| 0 <= i < a1.len() && a1[i] == x;
            assert(a[i + 1] == x);
            assert(lex_lt(a[0], x));
            lemma_lex_irreflexive(x);
            assert(a.contains(x));
            assert(b.contains(x));
            let j = choose|j: int| 0 <= j < b.len() && b[j] == x;
            assert(j != 0);
            assert(b1[j - 1] == x);
        }
        if b1.contains(x) {
            let i = choose|i: int| 0 <= i < b1.len() && b1[i] == x;
            assert(b[i + 1] == x);
            assert(lex_lt(b[0], x));
            lemma_lex_irreflexive(x);
            assert(b.contains(x));
            assert(a.contains(x));
            let j = choose|j: int| 0 <= j < a.len() && a[j] == x;
            assert(j != 0);
            assert(a1[j - 1] == x);
        }
    }
    lemma_sorted_unique(a1, b1);
    assert(a =~= seq![a[0]] + a1);
    assert(b =~= seq![b[0]] + b1);
}

} // verus!
