//! Cutting the population `0..n` into `t` contiguous shares, one per worker.
//!
//! The cuts are the ceilings of `n * i / t`, for `i` from `0` to `t`. The
//! shares between them lie end to end, differ in length by one at most, and
//! cover every agent exactly once, whether or not `t` divides `n`.

use std::ops::Range;
use vstd::arithmetic::div_mod::lemma_fundamental_div_mod;
use vstd::prelude::*;

verus! {

/// The `i`-th cut of `0..n` into `t` shares: the least integer that is not
/// below `n * i / t`.
pub open spec fn cut(n: int, t: int, i: int) -> int
    recommends
        t > 0,
{
    (n * i + t - 1) / t
}

/// Whether agent `k` falls into the share of worker `i`.
pub open spec fn holds(n: int, t: int, i: int, k: int) -> bool {
    cut(n, t, i) <= k < cut(n, t, i + 1)
}

/// The worker whose share holds agent `k`.
pub open spec fn owner(n: int, t: int, k: int) -> int
    recommends
        0 <= k < n,
{
    (k * t) / n
}

/// The index range of worker `i` among `t` workers.
pub open spec fn share(n: int, t: int, i: int) -> Range<usize> {
    Range { start: cut(n, t, i) as usize, end: cut(n, t, i + 1) as usize }
}

/// The shares of all `t` workers, in worker order.
pub open spec fn shares(n: int, t: int) -> Seq<Range<usize>> {
    Seq::new(t as nat, |i: int| share(n, t, i))
}

/// Whether `ranges` lie end to end from `0` to `n`: the first begins at `0`,
/// each begins where the one before it ends, none runs backwards, and the
/// last ends at `n`.
pub open spec fn tiles(ranges: Seq<Range<usize>>, n: int) -> bool {
    &&& ranges.len() >= 1
    &&& ranges.first().start == 0
    &&& ranges.last().end == n
    &&& forall|i: int| 0 <= i < ranges.len() ==> (#[trigger] ranges[i]).start <= ranges[i].end
    &&& forall|i: int|
        0 <= i < ranges.len() - 1 ==> (#[trigger] ranges[i]).end == ranges[i + 1].start
}

/// How many of the ranges hold agent `k`.
pub open spec fn times_covered(ranges: Seq<Range<usize>>, k: int) -> nat
    decreases ranges.len(),
{
    if ranges.len() == 0 {
        0
    } else {
        let before = times_covered(ranges.drop_last(), k);
        if ranges.last().start <= k < ranges.last().end {
            before + 1
        } else {
            before
        }
    }
}

/// Whether the ranges cover `0..n` exactly once: every agent of `0..n` is
/// held by one range, and nothing else is held by any.
pub open spec fn covers_exactly_once(ranges: Seq<Range<usize>>, n: int) -> bool {
    forall|k: int| #[trigger]
        times_covered(ranges, k) == if 0 <= k < n {
            1nat
        } else {
            0nat
        }
}

/// Computes the `i`-th cut of `0..n` into `t` shares.
pub fn boundary(n: usize, t: usize, i: usize) -> (b: usize)
    requires
        t >= 1,
        i <= t,
    ensures
        b == cut(n as int, t as int, i as int),
        b <= n,
{
    proof {
        lemma_cut_in_bounds(n as int, t as int, i as int);
        assert(n * i <= 0xffff_ffff_ffff_ffff * 0xffff_ffff_ffff_ffff) by (nonlinear_arith)
            requires
                0 <= n <= 0xffff_ffff_ffff_ffff,
                0 <= i <= 0xffff_ffff_ffff_ffff,
        ;
    }
    let scaled: u128 = (n as u128) * (i as u128) + (t as u128 - 1);
    let b: u128 = scaled / (t as u128);
    b as usize
}

/// The index range that worker `i` of `t` works through.
pub fn worker_range(n: usize, t: usize, i: usize) -> (r: Range<usize>)
    requires
        i < t,
    ensures
        r == share(n as int, t as int, i as int),
        r.start == cut(n as int, t as int, i as int),
        r.end == cut(n as int, t as int, i + 1),
        r.start <= r.end <= n,
{
    proof {
        lemma_cut_monotone(n as int, t as int, i as int, i + 1);
    }
    let start: usize = boundary(n, t, i);
    let end: usize = boundary(n, t, i + 1);
    start..end
}

/// Cuts `0..n` into `t` contiguous ranges, one per worker, in worker order.
/// With no worker there is no range; with at least one, the ranges lie end
/// to end from `0` to `n` and cover every agent exactly once.
pub fn partition(n: usize, t: usize) -> (r: Vec<Range<usize>>)
    ensures
        r@ == shares(n as int, t as int),
        t >= 1 ==> tiles(r@, n as int) && covers_exactly_once(r@, n as int),
{
    proof {
        if t >= 1 {
            lemma_shares_tile(n as int, t as int);
            lemma_tiles_cover_exactly_once(shares(n as int, t as int), n as int);
        }
    }
    let mut ranges: Vec<Range<usize>> = Vec::new();
    let mut i: usize = 0;
    while i < t
        invariant
            i <= t,
            ranges@.len() == i,
            forall|j: int| 0 <= j < i ==> ranges@[j] == share(n as int, t as int, j),
        decreases t - i,
    {
        let range = worker_range(n, t, i);
        ranges.push(range);
        i = i + 1;
    }
    assert(ranges@ =~= shares(n as int, t as int));
    ranges
}

/// A cut is the ceiling of `n * i / t`: `t * cut` is the first multiple of
/// `t` that reaches `n * i`.
pub proof fn lemma_cut_is_ceiling(n: int, t: int, i: int)
    requires
        t > 0,
    ensures
        n * i <= t * cut(n, t, i) < n * i + t,
{
    let a = n * i + t - 1;
    lemma_fundamental_div_mod(a, t);
    assert(0 <= a % t < t) by (nonlinear_arith)
        requires
            t > 0,
    ;
}

/// The first cut is `0` and the last is `n`.
pub proof fn lemma_cut_ends(n: int, t: int)
    requires
        t > 0,
    ensures
        cut(n, t, 0) == 0,
        cut(n, t, t) == n,
{
    lemma_cut_is_ceiling(n, t, 0);
    lemma_cut_is_ceiling(n, t, t);
    let first = cut(n, t, 0);
    let last = cut(n, t, t);
    assert(first == 0) by (nonlinear_arith)
        requires
            t > 0,
            n * 0 <= t * first < n * 0 + t,
    ;
    assert(last == n) by (nonlinear_arith)
        requires
            t > 0,
            n * t <= t * last < n * t + t,
    ;
}

/// Cuts never step back.
pub proof fn lemma_cut_monotone(n: int, t: int, i: int, j: int)
    requires
        t > 0,
        n >= 0,
        i <= j,
    ensures
        cut(n, t, i) <= cut(n, t, j),
{
    lemma_cut_is_ceiling(n, t, i);
    lemma_cut_is_ceiling(n, t, j);
    let a = cut(n, t, i);
    let b = cut(n, t, j);
    assert(a <= b) by (nonlinear_arith)
        requires
            t > 0,
            n >= 0,
            i <= j,
            t * a < n * i + t,
            n * j <= t * b,
    ;
}

/// Every cut of a worker index lies in `0..=n`.
pub proof fn lemma_cut_in_bounds(n: int, t: int, i: int)
    requires
        t > 0,
        n >= 0,
        0 <= i <= t,
    ensures
        0 <= cut(n, t, i) <= n,
{
    lemma_cut_ends(n, t);
    lemma_cut_monotone(n, t, 0, i);
    lemma_cut_monotone(n, t, i, t);
}

/// Shares are as even as they can be: each holds `n / t` agents, rounded
/// down or up.
pub proof fn lemma_share_is_even(n: int, t: int, i: int)
    requires
        t > 0,
        n >= 0,
    ensures
        n / t <= cut(n, t, i + 1) - cut(n, t, i) <= (n + t - 1) / t,
{
    lemma_cut_is_ceiling(n, t, i);
    lemma_cut_is_ceiling(n, t, i + 1);
    lemma_fundamental_div_mod(n, t);
    lemma_fundamental_div_mod(n + t - 1, t);
    let a = cut(n, t, i);
    let b = cut(n, t, i + 1);
    let low = n / t;
    let high = (n + t - 1) / t;
    let r_low = n % t;
    let r_high = (n + t - 1) % t;
    assert(0 <= r_low < t && 0 <= r_high < t) by (nonlinear_arith)
        requires
            t > 0,
            r_low == n % t,
            r_high == (n + t - 1) % t,
    ;
    assert(low <= b - a) by (nonlinear_arith)
        requires
            t > 0,
            t * a < n * i + t,
            n * (i + 1) <= t * b,
            n == t * low + r_low,
            0 <= r_low,
    ;
    assert(b - a <= high) by (nonlinear_arith)
        requires
            t > 0,
            n * i <= t * a,
            t * b < n * (i + 1) + t,
            n + t - 1 == t * high + r_high,
            r_high < t,
    ;
}

/// Agent `k` lies in the share of worker `owner(n, t, k)`.
pub proof fn lemma_owner_holds(n: int, t: int, k: int)
    requires
        t > 0,
        0 <= k < n,
    ensures
        0 <= owner(n, t, k) < t,
        holds(n, t, owner(n, t, k), k),
{
    let o = owner(n, t, k);
    lemma_fundamental_div_mod(k * t, n);
    let r = (k * t) % n;
    assert(0 <= r < n) by (nonlinear_arith)
        requires
            n > 0,
            r == (k * t) % n,
    ;
    lemma_cut_is_ceiling(n, t, o);
    lemma_cut_is_ceiling(n, t, o + 1);
    let a = cut(n, t, o);
    let b = cut(n, t, o + 1);
    assert(0 <= o < t) by (nonlinear_arith)
        requires
            t > 0,
            0 <= k < n,
            k * t == n * o + r,
            0 <= r < n,
    ;
    assert(a <= k) by (nonlinear_arith)
        requires
            t > 0,
            t * a < n * o + t,
            k * t == n * o + r,
            0 <= r,
    ;
    assert(k < b) by (nonlinear_arith)
        requires
            t > 0,
            n * (o + 1) <= t * b,
            k * t == n * o + r,
            r < n,
    ;
}

/// No worker but `owner(n, t, k)` holds agent `k`.
pub proof fn lemma_owner_is_unique(n: int, t: int, i: int, k: int)
    requires
        t > 0,
        0 <= k < n,
        holds(n, t, i, k),
    ensures
        i == owner(n, t, k),
{
    let o = owner(n, t, k);
    lemma_owner_holds(n, t, k);
    if i < o {
        lemma_cut_monotone(n, t, i + 1, o);
    } else if i > o {
        lemma_cut_monotone(n, t, o + 1, i);
    }
}

/// The shares cover the population exactly once, for every population size
/// and every number of workers from one up: every agent of `0..n` lies in
/// the share of one worker of `0..t`, no share reaches outside `0..n`, and
/// no two shares overlap.
pub proof fn lemma_shares_cover_exactly_once(n: int, t: int)
    requires
        n >= 0,
        t >= 1,
    ensures
        forall|k: int|
            0 <= k < n ==> 0 <= #[trigger] owner(n, t, k) < t && holds(n, t, owner(n, t, k), k),
        forall|i: int, k: int|
            0 <= i < t && #[trigger] holds(n, t, i, k) ==> 0 <= k < n && i == owner(n, t, k),
{
    assert forall|k: int| 0 <= k < n implies 0 <= #[trigger] owner(n, t, k) < t && holds(
        n,
        t,
        owner(n, t, k),
        k,
    ) by {
        lemma_owner_holds(n, t, k);
    }
    assert forall|i: int, k: int| 0 <= i < t && #[trigger] holds(n, t, i, k) implies 0 <= k < n
        && i == owner(n, t, k) by {
        lemma_cut_in_bounds(n, t, i);
        lemma_cut_in_bounds(n, t, i + 1);
        lemma_owner_is_unique(n, t, i, k);
    }
}

/// The shares of at least one worker lie end to end from `0` to `n`.
pub proof fn lemma_shares_tile(n: int, t: int)
    requires
        0 <= n <= usize::MAX,
        t >= 1,
    ensures
        tiles(shares(n, t), n),
{
    let ranges = shares(n, t);
    lemma_cut_ends(n, t);
    assert forall|i: int| 0 <= i < ranges.len() implies (#[trigger] ranges[i]).start
        <= ranges[i].end by {
        lemma_cut_in_bounds(n, t, i);
        lemma_cut_in_bounds(n, t, i + 1);
        lemma_cut_monotone(n, t, i, i + 1);
    }
    assert forall|i: int| 0 <= i < ranges.len() - 1 implies (#[trigger] ranges[i]).end
        == ranges[i + 1].start by {
        lemma_cut_in_bounds(n, t, i + 1);
    }
}

/// Ranges that lie end to end from `0` to `n` cover `0..n` exactly once.
pub proof fn lemma_tiles_cover_exactly_once(ranges: Seq<Range<usize>>, n: int)
    requires
        tiles(ranges, n),
    ensures
        covers_exactly_once(ranges, n),
{
    assert forall|k: int| #[trigger]
        times_covered(ranges, k) == if 0 <= k < n {
            1nat
        } else {
            0nat
        } by {
        lemma_prefix_covers(ranges, n, ranges.len() as int, k);
        assert(ranges.take(ranges.len() as int) == ranges);
    }
}

/// The first `len` of ranges that lie end to end cover, exactly once, what
/// lies before the end of the last of them.
proof fn lemma_prefix_covers(ranges: Seq<Range<usize>>, n: int, len: int, k: int)
    requires
        tiles(ranges, n),
        0 <= len <= ranges.len(),
    ensures
        times_covered(ranges.take(len), k) == if 0 <= k && (len > 0 && k < ranges[len - 1].end) {
            1nat
        } else {
            0nat
        },
    decreases len,
{
    if len > 0 {
        lemma_prefix_covers(ranges, n, len - 1, k);
        assert(ranges.take(len).drop_last() == ranges.take(len - 1));
        assert(ranges.take(len).last() == ranges[len - 1]);
        if len > 1 {
            assert(ranges[len - 2].end == ranges[len - 1].start);
        }
        assert(ranges[len - 1].start <= ranges[len - 1].end);
    }
}

} // verus!
