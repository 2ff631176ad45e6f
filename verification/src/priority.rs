//! The bands transport-edge wraps are folded in, lowest innermost, and the
//! order they are applied in: by priority, ties in registration order, so
//! the documented order holds whatever order the app registered them in.
use vstd::prelude::*;

verus! {

/// Data-layer context: innermost, below the filters.
pub const DATA_CONTEXT: i32 = -10;
/// The global filter pool.
pub const FILTERS: i32 = 50;
/// The global interceptor pool.
pub const POOL_INTERCEPTORS: i32 = 90;
/// Infra interceptors: the default band, outermost.
pub const INTERCEPTORS: i32 = 100;

/// Wrap `a` goes inside wrap `b`: a lower priority, or the same one and
/// registered first.
pub open spec fn goes_before(ps: Seq<i32>, a: int, b: int) -> bool {
    ps[a] < ps[b] || (ps[a] == ps[b] && a < b)
}

/// `order` lists each of the `n` wraps once, innermost first.
pub open spec fn is_wrap_order(ps: Seq<i32>, order: Seq<usize>, n: int) -> bool {
    &&& order.len() == n
    &&& forall|i: int| 0 <= i < n ==> #[trigger] order[i] < n
    &&& forall|i: int, j: int| 0 <= i < j < n ==> goes_before(ps, #[trigger] order[i] as int, #[trigger] order[j] as int)
}

/// The order the wraps with priorities `ps` are applied in, innermost
/// first: ascending priority, ties in registration order.
pub fn wrap_order(ps: &[i32]) -> (r: Vec<usize>)
    ensures
        is_wrap_order(ps@, r@, ps@.len() as int),
        forall|k: int| 0 <= k < ps@.len() ==> #[trigger] r@.contains(k as usize),
{
    let mut r: Vec<usize> = Vec::new();
    let mut k: usize = 0;
    while k < ps.len()
        invariant
            k <= ps.len(),
            is_wrap_order(ps@, r@, k as int),
            forall|x: int| 0 <= x < k ==> #[trigger] r@.contains(x as usize),
        decreases ps.len() - k,
    {
        let mut j: usize = 0;
        while j < r.len() && ps[r[j]] <= ps[k]
            invariant
                j <= r.len(),
                k < ps.len(),
                r@.len() == k,
                is_wrap_order(ps@, r@, k as int),
                forall|i: int| 0 <= i < j ==> ps@[#[trigger] r@[i] as int] <= ps@[k as int],
            decreases r.len() - j,
        {
            j = j + 1;
        }
        let ghost old_r = r@;
        r.insert(j, k);
        proof {
            assert(r@ == old_r.insert(j as int, k));
            assert forall|i: int| 0 <= i < k + 1 implies #[trigger] r@[i] < k + 1 by {
                if i < j {
                    assert(r@[i] == old_r[i]);
                } else if i > j {
                    assert(r@[i] == old_r[i - 1]);
                }
            }
            assert forall|a: int, b: int| 0 <= a < b < k + 1 implies goes_before(ps@, #[trigger] r@[a] as int, #[trigger] r@[b] as int) by {
                if b < j {
                    assert(r@[a] == old_r[a] && r@[b] == old_r[b]);
                } else if b == j {
                    assert(r@[a] == old_r[a]);
                    assert(ps@[old_r[a] as int] <= ps@[k as int]);
                    assert(old_r[a] < k);
                } else if a < j {
                    assert(r@[a] == old_r[a] && r@[b] == old_r[b - 1]);
                } else if a == j {
                    assert(r@[b] == old_r[b - 1]);
                    assert(b - 1 >= j);
                    if b - 1 == j {
                        assert(!(ps@[old_r[j as int] as int] <= ps@[k as int]));
                    } else {
                        assert(!(ps@[old_r[j as int] as int] <= ps@[k as int]));
                        assert(goes_before(ps@, old_r[j as int] as int, old_r[b - 1] as int));
                    }
                } else {
                    assert(r@[a] == old_r[a - 1] && r@[b] == old_r[b - 1]);
                }
            }
            assert forall|x: int| 0 <= x < k + 1 implies #[trigger] r@.contains(x as usize) by {
                if x == k {
                    assert(r@[j as int] == k);
                } else {
                    assert(old_r.contains(x as usize));
                    let i = choose|i: int| 0 <= i < old_r.len() && old_r[i] == x as usize;
                    if i < j {
                        assert(r@[i] == old_r[i]);
                    } else {
                        assert(r@[i + 1] == old_r[i]);
                    }
                }
            }
        }
        k = k + 1;
    }
    r
}

/// A wrap at priority `p` runs before router and handler errors are turned
/// into responses: the global filter pool and everything inside it still
/// see them as errors, every band above sees a 404 or 405 as a response.
pub open spec fn sees_errors(p: i32) -> bool {
    p <= FILTERS
}

/// The position in `order` (innermost first) at which errors are turned
/// into responses: every wrap before it sees errors, every wrap from it on
/// sees responses.
pub fn error_resolution_point(ps: &[i32], order: &[usize]) -> (r: usize)
    requires
        is_wrap_order(ps@, order@, ps@.len() as int),
    ensures
        r <= order@.len(),
        forall|i: int| 0 <= i < r ==> sees_errors(ps@[#[trigger] order@[i] as int]),
        forall|i: int| r <= i < order@.len() ==> !sees_errors(ps@[#[trigger] order@[i] as int]),
{
    let mut r: usize = 0;
    while r < order.len() && ps[order[r]] <= FILTERS
        invariant
            r <= order@.len(),
            order@.len() == ps@.len(),
            is_wrap_order(ps@, order@, ps@.len() as int),
            forall|i: int| 0 <= i < r ==> sees_errors(ps@[#[trigger] order@[i] as int]),
        decreases order.len() - r,
    {
        r = r + 1;
    }
    proof {
        if r < order@.len() {
            assert forall|i: int| r <= i < order@.len() implies !sees_errors(ps@[#[trigger] order@[i] as int]) by {
                if r < i {
                    assert(goes_before(ps@, order@[r as int] as int, order@[i] as int));
                }
            }
        }
    }
    r
}

} // verus!
