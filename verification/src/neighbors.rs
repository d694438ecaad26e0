//! Which of the agents that a radius query found count as neighbours of the
//! agent that asked.
//!
//! A radius query around an agent finds the agent itself too. It is no
//! neighbour of its own: it is left out of the sums, and still counted in
//! the number that the sums are divided by. An agent that finds nobody else
//! is alone, and no flocking force acts on it.

use vstd::prelude::*;

verus! {

/// The test that every agent but `index` passes.
pub open spec fn is_other(index: usize) -> spec_fn(usize) -> bool {
    |j: usize| j != index
}

/// The agents of `found` but `index` itself, in the order found.
pub open spec fn others(index: usize, found: Seq<usize>) -> Seq<usize> {
    found.filter(is_other(index))
}

/// Whether a query around `index` found no agent but `index`.
pub open spec fn isolated(index: usize, found: Seq<usize>) -> bool {
    forall|i: int| 0 <= i < found.len() ==> found[i] == index
}

/// What surrounds an agent in one frame.
#[derive(Clone, Debug, PartialEq, Eq)]
pub enum Neighborhood {
    /// Nobody else is in reach: no flocking force acts on the agent.
    Alone,
    /// `others` are in reach. Each sum over them is divided by `divisor`,
    /// the number of agents that the query found, the agent included.
    Among { others: Vec<usize>, divisor: usize },
}

impl Neighborhood {
    /// An agent among others has at least one of them, and a divisor that
    /// counts them all: no sum is ever divided by zero.
    pub open spec fn wf(self) -> bool {
        self matches Neighborhood::Among { others, divisor } ==> 0 < others@.len() <= divisor
    }
}

/// Sorts out the result of a radius query around agent `index`: the agent
/// is alone exactly when the query found nobody else, and is otherwise
/// among the others found, in the order found, with the number of all
/// found as the divisor, which is then at least one.
pub fn select(index: usize, found: &Vec<usize>) -> (r: Neighborhood)
    ensures
        match r {
            Neighborhood::Alone => others(index, found@).len() == 0,
            Neighborhood::Among { others: kept, divisor } => {
                &&& kept@ == others(index, found@)
                &&& kept@.len() > 0
                &&& divisor == found@.len()
            },
        },
        r is Alone <==> isolated(index, found@),
        r.wf(),
{
    let mut kept: Vec<usize> = Vec::new();
    let mut i: usize = 0;
    proof {
        reveal(Seq::filter);
        assert(found@.take(0) == Seq::<usize>::empty());
        lemma_isolated_has_no_others(index, found@);
        found@.lemma_filter_len(is_other(index));
    }
    while i < found.len()
        invariant
            i <= found.len(),
            kept@ == others(index, found@.take(i as int)),
        decreases found.len() - i,
    {
        let j: usize = found[i];
        proof {
            lemma_others_push(index, found@.take(i as int), j);
            assert(found@.take(i as int).push(j) == found@.take(i + 1));
        }
        if j != index {
            kept.push(j);
        }
        i = i + 1;
    }
    assert(found@.take(i as int) == found@);
    if kept.len() == 0 {
        Neighborhood::Alone
    } else {
        Neighborhood::Among { others: kept, divisor: found.len() }
    }
}

/// An agent is isolated exactly when it has no others: an agent with no
/// other agent in reach gets no contribution from anyone.
pub proof fn lemma_isolated_has_no_others(index: usize, found: Seq<usize>)
    ensures
        isolated(index, found) <==> others(index, found).len() == 0,
    decreases found.len(),
{
    reveal(Seq::filter);
    if found.len() > 0 {
        let front = found.drop_last();
        lemma_isolated_has_no_others(index, front);
        if isolated(index, found) {
            assert forall|i: int| 0 <= i < front.len() implies front[i] == index by {
                assert(front[i] == found[i]);
            }
        } else if found.last() == index && isolated(index, front) {
            assert forall|i: int| 0 <= i < found.len() implies found[i] == index by {
                if i < front.len() {
                    assert(front[i] == found[i]);
                }
            }
        }
    }
}

/// The agent itself is never among the others.
pub proof fn lemma_others_exclude_self(index: usize, found: Seq<usize>, i: int)
    requires
        0 <= i < others(index, found).len(),
    ensures
        others(index, found)[i] != index,
{
    found.lemma_filter_pred(is_other(index), i);
}

/// Every agent found but the asking one is among the others.
pub proof fn lemma_others_keep_the_rest(index: usize, found: Seq<usize>, i: int)
    requires
        0 <= i < found.len(),
        found[i] != index,
    ensures
        others(index, found).contains(found[i]),
{
    found.lemma_filter_contains(is_other(index), i);
}

/// Growing the query result by one agent grows the others by that agent,
/// unless it is the asking agent.
pub proof fn lemma_others_push(index: usize, found: Seq<usize>, j: usize)
    ensures
        others(index, found.push(j)) == if j != index {
            others(index, found).push(j)
        } else {
            others(index, found)
        },
{
    reveal(Seq::filter);
    assert(found.push(j).drop_last() == found);
}

} // verus!
