//! How many workers a frame is cut for.

use crate::partition::{covers_exactly_once, partition, shares, tiles};
use std::ops::Range;
use vstd::prelude::*;

verus! {

/// The number of logical processors that this process may run on, as
/// `num_cpus::get` reports it. The count differs from machine to machine;
/// the crate documents that it is never below one, and no more is claimed
/// here.
#[verifier::external_body]
fn available_processors() -> (count: usize)
    ensures
        count >= 1,
{
    num_cpus::get()
}

/// Cuts `0..n` into one range per available processor, in worker order.
///
/// How many ranges come back depends on the machine. Whatever their number
/// `t`, they are the shares of `t` workers, lie end to end from `0` to `n`,
/// and so cover every agent exactly once.
pub fn assign(n: usize) -> (r: Vec<Range<usize>>)
    ensures
        r@.len() >= 1,
        r@ == shares(n as int, r@.len() as int),
        tiles(r@, n as int),
        covers_exactly_once(r@, n as int),
{
    let t: usize = available_processors();
    partition(n, t)
}

} // verus!
