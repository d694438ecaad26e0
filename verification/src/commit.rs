//! Bringing the workers' private force buffers back into population order.
//!
//! Each worker fills a buffer of its own with one force for each agent of
//! its range, in the order of the range. Joined in worker order, the
//! buffers hold the force of agent `k` at place `k`.

use crate::partition::tiles;
use std::ops::Range;
use vstd::prelude::*;

verus! {

/// The number of items that the first `i` parts hold together.
pub open spec fn offset<T>(parts: Seq<Seq<T>>, i: int) -> int
    decreases i,
{
    if i <= 0 {
        0
    } else {
        offset(parts, i - 1) + parts[i - 1].len()
    }
}

/// The contents of the buffers, one buffer after the other.
pub open spec fn contents<T>(buffers: Seq<Vec<T>>) -> Seq<Seq<T>> {
    buffers.map_values(|b: Vec<T>| b@)
}

/// Whether each part holds one item for each agent of the range with the
/// same number.
pub open spec fn fills<T>(parts: Seq<Seq<T>>, ranges: Seq<Range<usize>>) -> bool {
    &&& parts.len() == ranges.len()
    &&& forall|i: int|
        0 <= i < parts.len() ==> (#[trigger] parts[i]).len() == ranges[i].end - ranges[i].start
}

/// Tells whether every worker handed in one item for each agent of its
/// range: whether the buffers are as many as the ranges, and each as long
/// as its range.
pub fn complete<T>(buffers: &Vec<Vec<T>>, ranges: &Vec<Range<usize>>) -> (ok: bool)
    ensures
        ok == fills(contents(buffers@), ranges@),
{
    if buffers.len() != ranges.len() {
        return false;
    }
    let ghost parts = contents(buffers@);
    let mut i: usize = 0;
    while i < buffers.len()
        invariant
            i <= buffers.len(),
            buffers.len() == ranges.len(),
            parts == contents(buffers@),
            forall|j: int|
                0 <= j < i ==> (#[trigger] parts[j]).len() == ranges[j].end - ranges[j].start,
        decreases buffers.len() - i,
    {
        let range = &ranges[i];
        assert(parts[i as int] == buffers[i as int]@);
        if range.end < range.start || buffers[i].len() != range.end - range.start {
            return false;
        }
        i = i + 1;
    }
    true
}

/// Joins the workers' buffers, in worker order, into one sequence.
pub fn gather<T>(buffers: Vec<Vec<T>>) -> (joined: Vec<T>)
    ensures
        joined@ == contents(buffers@).flatten(),
{
    let ghost whole = contents(buffers@);
    let mut joined: Vec<T> = Vec::new();
    proof {
        whole.take(0).lemma_flatten_and_flatten_alt_are_equivalent();
    }
    for buffer in it: buffers
        invariant
            it.seq() == buffers@,
            whole == contents(buffers@),
            joined@ == whole.take(it.index() as int).flatten(),
    {
        let mut buffer = buffer;
        proof {
            let before = whole.take(it.index() as int);
            let after = whole.take(it.index() + 1);
            assert(after.drop_last() == before);
            assert(after.last() == buffer@);
            before.lemma_flatten_and_flatten_alt_are_equivalent();
            after.lemma_flatten_and_flatten_alt_are_equivalent();
        }
        joined.append(&mut buffer);
    }
    assert(whole.take(whole.len() as int) == whole);
    joined
}

/// Joining keeps every item: the whole is as long as all parts together.
pub proof fn lemma_flatten_len<T>(parts: Seq<Seq<T>>)
    ensures
        parts.flatten().len() == offset(parts, parts.len() as int),
    decreases parts.len(),
{
    parts.lemma_flatten_and_flatten_alt_are_equivalent();
    if parts.len() > 0 {
        let front = parts.drop_last();
        lemma_flatten_len(front);
        front.lemma_flatten_and_flatten_alt_are_equivalent();
        lemma_offset_of_prefix(parts, front, front.len() as int);
    }
}

/// Joining keeps every item where its part begins plus its place in the
/// part: item `k` of part `i` is item `offset(parts, i) + k` of the whole.
pub proof fn lemma_flatten_place<T>(parts: Seq<Seq<T>>, i: int, k: int)
    requires
        0 <= i < parts.len(),
        0 <= k < parts[i].len(),
    ensures
        0 <= offset(parts, i) + k < parts.flatten().len(),
        parts.flatten()[offset(parts, i) + k] == parts[i][k],
    decreases parts.len(),
{
    parts.lemma_flatten_and_flatten_alt_are_equivalent();
    let front = parts.drop_last();
    front.lemma_flatten_and_flatten_alt_are_equivalent();
    lemma_flatten_len(front);
    lemma_offset_of_prefix(parts, front, i);
    if i < front.len() {
        lemma_flatten_place(front, i, k);
    }
}

/// Where each part fills its range, and the ranges lie end to end, part `i`
/// begins in the whole where range `i` begins in the population.
pub proof fn lemma_parts_begin_with_ranges<T>(
    parts: Seq<Seq<T>>,
    ranges: Seq<Range<usize>>,
    n: int,
    i: int,
)
    requires
        tiles(ranges, n),
        fills(parts, ranges),
        0 <= i <= ranges.len(),
    ensures
        offset(parts, i) == if i < ranges.len() {
            ranges[i].start as int
        } else {
            n
        },
    decreases i,
{
    if i > 0 {
        lemma_parts_begin_with_ranges(parts, ranges, n, i - 1);
        assert(parts[i - 1].len() == ranges[i - 1].end - ranges[i - 1].start);
        if i < ranges.len() {
            assert(ranges[i - 1].end == ranges[i].start);
        }
    }
}

/// Forces come back under the index of their agent: where the ranges lie
/// end to end from `0` to `n`, and every worker returns one item for each
/// agent of its range, in the order of the range, the joined buffers hold
/// `n` items, and item `k` is the one that the worker whose range holds
/// agent `k` computed for it.
pub proof fn lemma_joined_in_population_order<T>(
    parts: Seq<Seq<T>>,
    ranges: Seq<Range<usize>>,
    n: int,
)
    requires
        tiles(ranges, n),
        fills(parts, ranges),
    ensures
        parts.flatten().len() == n,
        forall|i: int, k: int|
            #![trigger parts[i], parts.flatten()[k]]
            0 <= i < ranges.len() && ranges[i].start <= k < ranges[i].end ==> parts.flatten()[k]
                == parts[i][k - ranges[i].start],
{
    lemma_flatten_len(parts);
    lemma_parts_begin_with_ranges(parts, ranges, n, ranges.len() as int);
    assert forall|i: int, k: int|
        #![trigger parts[i], parts.flatten()[k]]
        0 <= i < ranges.len() && ranges[i].start <= k < ranges[i].end implies parts.flatten()[k]
        == parts[i][k - ranges[i].start] by {
        lemma_parts_begin_with_ranges(parts, ranges, n, i);
        lemma_flatten_place(parts, i, k - ranges[i].start);
    }
}

/// An offset looks at the parts before it only.
proof fn lemma_offset_of_prefix<T>(parts: Seq<Seq<T>>, shorter: Seq<Seq<T>>, i: int)
    requires
        0 <= i <= shorter.len() <= parts.len(),
        forall|j: int| 0 <= j < shorter.len() ==> shorter[j] == parts[j],
    ensures
        offset(shorter, i) == offset(parts, i),
    decreases i,
{
    if i > 0 {
        lemma_offset_of_prefix(parts, shorter, i - 1);
    }
}

} // verus!
