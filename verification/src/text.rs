//! Character-sequence helpers shared by every module that reads a path, a
//! header value or a configuration string.
use vstd::prelude::*;

verus! {

pub assume_specification[ String::push ](s: &mut String, ch: char)
    ensures
        final(s)@ == old(s)@.push(ch),
;

/// std's `char::to_ascii_lowercase`: `A`..`Z` map to `a`..`z`, every other
/// character is returned unchanged.
pub assume_specification[ char::to_ascii_lowercase ](c: &char) -> (r: char)
    ensures
        r == lower(*c),
;

/// Rust's `char::is_whitespace`: the Unicode `White_Space` property.
pub open spec fn is_ws(c: char) -> bool {
    ||| ('\u{9}' <= c <= '\u{d}')
    ||| c == ' '
    ||| c == '\u{85}'
    ||| c == '\u{a0}'
    ||| c == '\u{1680}'
    ||| ('\u{2000}' <= c <= '\u{200a}')
    ||| c == '\u{2028}'
    ||| c == '\u{2029}'
    ||| c == '\u{202f}'
    ||| c == '\u{205f}'
    ||| c == '\u{3000}'
}

/// `s` with every trailing `c` removed (`str::trim_end_matches(c)`).
pub open spec fn trim_end_char(s: Seq<char>, c: char) -> Seq<char>
    decreases s.len(),
{
    if s.len() > 0 && s.last() == c {
        trim_end_char(s.drop_last(), c)
    } else {
        s
    }
}

/// `s` with every leading `c` removed (`str::trim_start_matches(c)`).
pub open spec fn trim_start_char(s: Seq<char>, c: char) -> Seq<char>
    decreases s.len(),
{
    if s.len() > 0 && s[0] == c {
        trim_start_char(s.drop_first(), c)
    } else {
        s
    }
}

/// `str::trim_matches(c)`.
pub open spec fn trim_char(s: Seq<char>, c: char) -> Seq<char> {
    trim_start_char(trim_end_char(s, c), c)
}

/// `s` without its trailing whitespace (`str::trim_end`).
pub open spec fn trim_ws_end(s: Seq<char>) -> Seq<char>
    decreases s.len(),
{
    if s.len() > 0 && is_ws(s.last()) {
        trim_ws_end(s.drop_last())
    } else {
        s
    }
}

/// `s` without its leading whitespace (`str::trim_start`).
pub open spec fn trim_ws_start(s: Seq<char>) -> Seq<char>
    decreases s.len(),
{
    if s.len() > 0 && is_ws(s[0]) {
        trim_ws_start(s.drop_first())
    } else {
        s
    }
}

/// `str::trim`.
pub open spec fn trim_ws(s: Seq<char>) -> Seq<char> {
    trim_ws_start(trim_ws_end(s))
}

/// The pieces `str::split(c)` yields, in order. Always at least one piece.
pub open spec fn split_char(s: Seq<char>, c: char) -> Seq<Seq<char>>
    decreases s.len(),
{
    if s.len() == 0 {
        seq![Seq::<char>::empty()]
    } else {
        let rest = split_char(s.drop_last(), c);
        if s.last() == c {
            rest.push(Seq::<char>::empty())
        } else {
            rest.update(rest.len() - 1, rest.last().push(s.last()))
        }
    }
}

/// Whether `c` occurs in `s`.
pub open spec fn has_char(s: Seq<char>, c: char) -> bool {
    exists|i: int| 0 <= i < s.len() && s[i] == c
}

/// The index of the first `c` in `s`, if any.
pub open spec fn first_index(s: Seq<char>, c: char) -> Option<int>
    decreases s.len(),
{
    if s.len() == 0 {
        None
    } else if s[0] == c {
        Some(0)
    } else {
        match first_index(s.drop_first(), c) {
            Some(i) => Some(i + 1),
            None => None,
        }
    }
}

/// `s` starts with `p`.
pub open spec fn starts_with(s: Seq<char>, p: Seq<char>) -> bool {
    p.len() <= s.len() && s.take(p.len() as int) == p
}

/// ASCII lowercase of one character (`char::to_ascii_lowercase`).
pub open spec fn lower(c: char) -> char {
    if 'A' <= c <= 'Z' {
        ((c as u32) + 32) as char
    } else {
        c
    }
}

/// `str::to_ascii_lowercase`.
pub open spec fn lower_all(s: Seq<char>) -> Seq<char> {
    s.map_values(|c: char| lower(c))
}

/// `char::is_ascii_alphanumeric`.
pub open spec fn is_ascii_alnum(c: char) -> bool {
    ('0' <= c <= '9') || ('a' <= c <= 'z') || ('A' <= c <= 'Z')
}

pub proof fn lemma_split_nonempty(s: Seq<char>, c: char)
    ensures
        split_char(s, c).len() >= 1,
    decreases s.len(),
{
    if s.len() > 0 {
        lemma_split_nonempty(s.drop_last(), c);
    }
}

/// `char::is_whitespace`.
pub fn char_is_ws(c: char) -> (r: bool)
    ensures
        r == is_ws(c),
{
    ('\u{9}' <= c && c <= '\u{d}') || c == ' ' || c == '\u{85}' || c == '\u{a0}' || c == '\u{1680}'
        || ('\u{2000}' <= c && c <= '\u{200a}') || c == '\u{2028}' || c == '\u{2029}' || c
        == '\u{202f}' || c == '\u{205f}' || c == '\u{3000}'
}

/// The characters of `s`, in order.
pub fn chars_of(s: &str) -> (r: Vec<char>)
    ensures
        r@ == s@,
{
    let mut r: Vec<char> = Vec::new();
    for c in it: s.chars()
        invariant
            r@ == it.seq().take(it.index() as int),
    {
        r.push(c);
    }
    assert(r@ == s@);
    r
}

/// A `String` holding exactly `v`.
pub fn string_of(v: &[char]) -> (r: String)
    ensures
        r@ == v@,
{
    let mut r = String::new();
    let mut i: usize = 0;
    while i < v.len()
        invariant
            i <= v.len(),
            r@ == v@.take(i as int),
        decreases v.len() - i,
    {
        r.push(v[i]);
        i = i + 1;
        assert(r@ == v@.take(i as int));
    }
    assert(v@.take(v.len() as int) == v@);
    r
}

/// `v[a..b]`, copied.
pub fn slice_of(v: &[char], a: usize, b: usize) -> (r: Vec<char>)
    requires
        a <= b <= v.len(),
    ensures
        r@ == v@.subrange(a as int, b as int),
{
    let mut r: Vec<char> = Vec::new();
    let mut i: usize = a;
    while i < b
        invariant
            a <= i <= b <= v.len(),
            r@ == v@.subrange(a as int, i as int),
        decreases b - i,
    {
        r.push(v[i]);
        i = i + 1;
        assert(r@ == v@.subrange(a as int, i as int));
    }
    r
}

/// `a ++ b`.
pub fn concat(a: &[char], b: &[char]) -> (r: Vec<char>)
    ensures
        r@ == a@ + b@,
{
    let mut r = slice_of(a, 0, a.len());
    let mut i: usize = 0;
    assert(a@.subrange(0, a@.len() as int) == a@);
    while i < b.len()
        invariant
            i <= b.len(),
            r@ == a@ + b@.take(i as int),
        decreases b.len() - i,
    {
        r.push(b[i]);
        i = i + 1;
        assert(r@ == a@ + b@.take(i as int));
    }
    assert(b@.take(b.len() as int) == b@);
    r
}

/// Character-wise equality.
pub fn eq_chars(a: &[char], b: &[char]) -> (r: bool)
    ensures
        r == (a@ == b@),
{
    if a.len() != b.len() {
        return false;
    }
    let mut i: usize = 0;
    while i < a.len()
        invariant
            i <= a.len() == b.len(),
            a@.take(i as int) == b@.take(i as int),
        decreases a.len() - i,
    {
        if a[i] != b[i] {
            return false;
        }
        i = i + 1;
        assert(a@.take(i as int) == b@.take(i as int));
    }
    assert(a@ == a@.take(a.len() as int));
    assert(b@ == b@.take(b.len() as int));
    true
}

/// `s.starts_with(p)`.
pub fn starts_with_chars(s: &[char], p: &[char]) -> (r: bool)
    ensures
        r == starts_with(s@, p@),
{
    if p.len() > s.len() {
        return false;
    }
    let head = slice_of(s, 0, p.len());
    assert(head@ == s@.take(p.len() as int));
    eq_chars(&head, p)
}

/// The index of the first `c` in `s`.
pub fn find_char(s: &[char], c: char) -> (r: Option<usize>)
    ensures
        r is Some <==> first_index(s@, c) is Some,
        r matches Some(i) ==> first_index(s@, c) == Some(i as int) && i < s.len() && s@[i as int] == c,
        r is None ==> !has_char(s@, c),
{
    let mut i: usize = 0;
    while i < s.len()
        invariant
            i <= s.len(),
            forall|j: int| 0 <= j < i ==> s@[j] != c,
        decreases s.len() - i,
    {
        if s[i] == c {
            proof { lemma_first_index_at(s@, c, i as int); }
            return Some(i);
        }
        i = i + 1;
    }
    proof { lemma_first_index_none(s@, c); }
    None
}

pub proof fn lemma_first_index_at(s: Seq<char>, c: char, i: int)
    requires
        0 <= i < s.len(),
        s[i] == c,
        forall|j: int| 0 <= j < i ==> s[j] != c,
    ensures
        first_index(s, c) == Some(i),
    decreases i,
{
    if i > 0 {
        lemma_first_index_at(s.drop_first(), c, i - 1);
    }
}

pub proof fn lemma_first_index_none(s: Seq<char>, c: char)
    requires
        forall|j: int| 0 <= j < s.len() ==> s[j] != c,
    ensures
        first_index(s, c) is None,
        !has_char(s, c),
    decreases s.len(),
{
    if s.len() > 0 {
        lemma_first_index_none(s.drop_first(), c);
    }
}

/// `s.trim_end_matches(c)`.
pub fn trim_end_char_exec(s: &[char], c: char) -> (r: Vec<char>)
    ensures
        r@ == trim_end_char(s@, c),
{
    let mut k: usize = s.len();
    assert(s@.take(k as int) == s@);
    while k > 0 && s[k - 1] == c
        invariant
            k <= s.len(),
            trim_end_char(s@, c) == trim_end_char(s@.take(k as int), c),
        decreases k,
    {
        assert(s@.take(k as int).drop_last() == s@.take(k - 1));
        k = k - 1;
    }
    slice_of(s, 0, k)
}

/// `s.trim_start_matches(c)`.
pub fn trim_start_char_exec(s: &[char], c: char) -> (r: Vec<char>)
    ensures
        r@ == trim_start_char(s@, c),
{
    let mut k: usize = 0;
    assert(s@.skip(0) == s@);
    while k < s.len() && s[k] == c
        invariant
            k <= s.len(),
            trim_start_char(s@, c) == trim_start_char(s@.skip(k as int), c),
        decreases s.len() - k,
    {
        assert(s@.skip(k as int).drop_first() == s@.skip(k + 1));
        k = k + 1;
    }
    assert(s@.skip(k as int) == s@.subrange(k as int, s.len() as int));
    slice_of(s, k, s.len())
}

/// `s.trim_matches(c)`.
pub fn trim_char_exec(s: &[char], c: char) -> (r: Vec<char>)
    ensures
        r@ == trim_char(s@, c),
{
    let e = trim_end_char_exec(s, c);
    trim_start_char_exec(&e, c)
}

/// `s.trim()`.
pub fn trim_ws_exec(s: &[char]) -> (r: Vec<char>)
    ensures
        r@ == trim_ws(s@),
{
    let mut k: usize = s.len();
    assert(s@.take(k as int) == s@);
    while k > 0 && char_is_ws(s[k - 1])
        invariant
            k <= s.len(),
            trim_ws_end(s@) == trim_ws_end(s@.take(k as int)),
        decreases k,
    {
        assert(s@.take(k as int).drop_last() == s@.take(k - 1));
        k = k - 1;
    }
    let e = slice_of(s, 0, k);
    let mut j: usize = 0;
    assert(e@.skip(0) == e@);
    while j < e.len() && char_is_ws(e[j])
        invariant
            j <= e.len(),
            trim_ws_start(e@) == trim_ws_start(e@.skip(j as int)),
        decreases e.len() - j,
    {
        assert(e@.skip(j as int).drop_first() == e@.skip(j + 1));
        j = j + 1;
    }
    assert(e@.skip(j as int) == e@.subrange(j as int, e.len() as int));
    slice_of(&e, j, e.len())
}

/// The pieces of `s.split(c)`.
pub fn split_char_exec(s: &[char], c: char) -> (r: Vec<Vec<char>>)
    ensures
        r@.len() == split_char(s@, c).len(),
        forall|i: int| 0 <= i < r@.len() ==> #[trigger] r@[i]@ == split_char(s@, c)[i],
{
    let mut done: Vec<Vec<char>> = Vec::new();
    let mut cur: Vec<char> = Vec::new();
    let mut i: usize = 0;
    while i < s.len()
        invariant
            i <= s.len(),
            done@.len() + 1 == split_char(s@.take(i as int), c).len(),
            forall|j: int| 0 <= j < done@.len() ==> #[trigger] done@[j]@ == split_char(s@.take(i as int), c)[j],
            cur@ == split_char(s@.take(i as int), c).last(),
        decreases s.len() - i,
    {
        proof {
            lemma_split_nonempty(s@.take(i as int), c);
            assert(s@.take(i + 1).drop_last() == s@.take(i as int));
        }
        if s[i] == c {
            done.push(cur);
            cur = Vec::new();
        } else {
            cur.push(s[i]);
        }
        i = i + 1;
    }
    assert(s@.take(s.len() as int) == s@);
    done.push(cur);
    done
}

/// ASCII lowercase copy.
pub fn lower_all_exec(s: &[char]) -> (r: Vec<char>)
    ensures
        r@ == lower_all(s@),
{
    let mut r: Vec<char> = Vec::new();
    let mut i: usize = 0;
    while i < s.len()
        invariant
            i <= s.len(),
            r@ == lower_all(s@.take(i as int)),
        decreases s.len() - i,
    {
        let ch = s[i];
        r.push(ch.to_ascii_lowercase());
        i = i + 1;
        assert(lower_all(s@.take(i as int)) == lower_all(s@.take(i - 1)).push(lower(s@[i - 1])));
    }
    assert(s@.take(s.len() as int) == s@);
    r
}

} // verus!

verus! {

/// What `format!("{:?}", s)` renders a string as: quoted, with std's
/// `char::escape_debug` applied to every character.
pub uninterp spec fn debug_str(s: Seq<char>) -> Seq<char>;

/// std's `Debug` for `str`, i.e. `format!("{:?}", s)`. The contract claims
/// that the rendering depends on the text alone, nothing more.
#[verifier::external_body]
pub fn debug_quoted(s: &str) -> (r: String)
    ensures
        r@ == debug_str(s@),
{
    format!("{:?}", s)
}

/// `s` followed by `t`, as a new `String`.
pub fn cat(s: &str, t: &str) -> (r: String)
    ensures
        r@ == s@ + t@,
{
    let a = chars_of(s);
    let b = chars_of(t);
    let v = concat(&a, &b);
    string_of(&v)
}

/// The concatenation of every piece, in order.
pub open spec fn cat_all(pieces: Seq<Seq<char>>) -> Seq<char>
    decreases pieces.len(),
{
    if pieces.len() == 0 {
        Seq::empty()
    } else {
        cat_all(pieces.drop_last()) + pieces.last()
    }
}

/// Join `pieces` with `sep` between each neighbouring pair (`[..].join(sep)`).
pub open spec fn join_with(pieces: Seq<Seq<char>>, sep: Seq<char>) -> Seq<char>
    decreases pieces.len(),
{
    if pieces.len() == 0 {
        Seq::empty()
    } else if pieces.len() == 1 {
        pieces[0]
    } else {
        join_with(pieces.drop_last(), sep) + sep + pieces.last()
    }
}

/// `pieces.join(sep)` over owned strings.
pub fn join_strings(pieces: &Vec<String>, sep: &str) -> (r: String)
    ensures
        r@ == join_with(pieces@.map_values(|p: String| p@), sep@),
{
    let ghost all = pieces@.map_values(|p: String| p@);
    let sepv = chars_of(sep);
    let mut acc: Vec<char> = Vec::new();
    let mut i: usize = 0;
    while i < pieces.len()
        invariant
            i <= pieces.len(),
            sepv@ == sep@,
            all == pieces@.map_values(|p: String| p@),
            acc@ == join_with(all.take(i as int), sep@),
        decreases pieces.len() - i,
    {
        let piece = chars_of(pieces[i].as_str());
        if i == 0 {
            acc = piece;
        } else {
            let with_sep = concat(&acc, &sepv);
            acc = concat(&with_sep, &piece);
        }
        proof {
            assert(all.take(i + 1).drop_last() == all.take(i as int));
            if i == 0 {
                assert(all.take(1) == seq![all[0]]);
            }
        }
        i = i + 1;
    }
    assert(all.take(pieces.len() as int) == all);
    string_of(&acc)
}

/// Append `t` to `s`.
pub fn push_str(s: &mut String, t: &str)
    ensures
        final(s)@ == old(s)@ + t@,
{
    let ghost s0 = s@;
    let v = chars_of(t);
    let mut i: usize = 0;
    while i < v.len()
        invariant
            i <= v.len(),
            v@ == t@,
            s@ == s0 + v@.take(i as int),
        decreases v.len() - i,
    {
        s.push(v[i]);
        i = i + 1;
        assert(s@ == s0 + v@.take(i as int));
    }
    assert(v@.take(v.len() as int) == v@);
}

/// The decimal digit of `d` (`0 <= d <= 9`).
pub open spec fn digit_char(d: nat) -> char {
    if d == 0 { '0' } else if d == 1 { '1' } else if d == 2 { '2' } else if d == 3 { '3' }
    else if d == 4 { '4' } else if d == 5 { '5' } else if d == 6 { '6' } else if d == 7 { '7' }
    else if d == 8 { '8' } else { '9' }
}

/// `n` in decimal, no leading zeros.
pub open spec fn decimal(n: nat) -> Seq<char>
    decreases n,
{
    if n < 10 {
        seq![digit_char(n)]
    } else {
        decimal(n / 10).push(digit_char(n % 10))
    }
}

fn digit(d: u64) -> (c: char)
    requires
        d < 10,
    ensures
        c == digit_char(d as nat),
{
    if d == 0 { '0' } else if d == 1 { '1' } else if d == 2 { '2' } else if d == 3 { '3' }
    else if d == 4 { '4' } else if d == 5 { '5' } else if d == 6 { '6' } else if d == 7 { '7' }
    else if d == 8 { '8' } else { '9' }
}

/// `n` in decimal (`n.to_string()`).
pub fn decimal_string(n: u64) -> (r: String)
    ensures
        r@ == decimal(n as nat),
    decreases n,
{
    if n < 10 {
        let mut s = String::new();
        s.push(digit(n));
        assert(s@ == seq![digit_char(n as nat)]);
        s
    } else {
        let mut s = decimal_string(n / 10);
        s.push(digit(n % 10));
        s
    }
}

/// An ASCII decimal digit.
pub open spec fn is_digit(c: char) -> bool {
    '0' <= c <= '9'
}

/// The value of a run of decimal digits.
pub open spec fn digits_value(s: Seq<char>) -> nat
    decreases s.len(),
{
    if s.len() == 0 {
        0
    } else {
        digits_value(s.drop_last()) * 10 + ((s.last() as int) - ('0' as int)) as nat
    }
}

/// What `str::parse::<u64>` accepts: an optional `+`, then one or more
/// digits whose value fits.
pub open spec fn parse_u64_spec(s: Seq<char>) -> Option<u64> {
    let d = unsigned_part(s);
    if d.len() > 0 && all_digits(d) && digits_value(d) <= u64::MAX {
        Some(digits_value(d) as u64)
    } else {
        None
    }
}

/// `s` without one leading `+`.
pub open spec fn unsigned_part(s: Seq<char>) -> Seq<char> {
    if s.len() > 0 && s[0] == '+' {
        s.drop_first()
    } else {
        s
    }
}

/// Every character of `s` is a decimal digit.
pub open spec fn all_digits(s: Seq<char>) -> bool {
    forall|i: int| 0 <= i < s.len() ==> is_digit(#[trigger] s[i])
}

proof fn lemma_digits_grow(s: Seq<char>, k: int)
    requires
        0 <= k <= s.len(),
        forall|i: int| 0 <= i < s.len() ==> is_digit(#[trigger] s[i]),
    ensures
        digits_value(s) >= digits_value(s.take(k)),
    decreases s.len(),
{
    if k < s.len() {
        assert(s.drop_last().take(k) == s.take(k));
        lemma_digits_grow(s.drop_last(), k);
    } else {
        assert(s.take(k) == s);
    }
}

/// `s.parse::<u64>()`, as an option.
pub fn parse_u64(s: &str) -> (r: Option<u64>)
    ensures
        r == parse_u64_spec(s@),
{
    let v = chars_of(s);
    let start: usize = if v.len() > 0 && v[0] == '+' { 1 } else { 0 };
    let ghost d = unsigned_part(s@);
    assert(d == v@.skip(start as int));
    if start == v.len() {
        return None;
    }
    let mut acc: u64 = 0;
    let mut i: usize = start;
    while i < v.len()
        invariant
            start <= i <= v.len(),
            v@ == s@,
            d == unsigned_part(s@),
            d == v@.skip(start as int),
            forall|k: int| 0 <= k < i - start ==> is_digit(#[trigger] d[k]),
            acc as nat == digits_value(d.take(i - start)),
        decreases v.len() - i,
    {
        let c = v[i];
        assert(c == d[i - start]);
        if !('0' <= c && c <= '9') {
            assert(!is_digit(d[i - start]));
            assert(!all_digits(d));
            return None;
        }
        let digit = (c as u32 - '0' as u32) as u64;
        assert(d.take(i - start + 1).drop_last() == d.take(i - start));
        assert(d.take(i - start + 1).last() == c);
        if acc > (u64::MAX - digit) / 10 {
            proof {
                assert(forall|k: int| 0 <= k < i - start + 1 ==> is_digit(#[trigger] d[k]));
                assert(digits_value(d.take(i - start + 1)) == acc * 10 + digit);
                assert(acc * 10 + digit > u64::MAX) by (nonlinear_arith)
                    requires
                        acc > (u64::MAX - digit) / 10,
                        digit <= 9,
                ;
                if all_digits(d) {
                    lemma_digits_grow(d, i - start + 1);
                }
            }
            return None;
        }
        assert(acc * 10 + digit <= u64::MAX) by (nonlinear_arith)
            requires
                acc <= (u64::MAX - digit) / 10,
                digit <= 9,
        ;
        acc = acc * 10 + digit;
        i = i + 1;
    }
    assert(d.take(v.len() - start) == d);
    Some(acc)
}

} // verus!
