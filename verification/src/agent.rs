//! The order of an agent's update.
//!
//! Every contribution to an agent's velocity is blended in and the velocity
//! brought back to unit length at once, so a later contribution meets an
//! already blended velocity: the order of the steps is part of the rule.
//! This module fixes that order. The arithmetic of each step is the
//! caller's.

use vstd::prelude::*;

verus! {

/// Where a coordinate lies against the arena, which reaches from the low
/// edge to the high edge, both included.
#[derive(Clone, Copy, Debug, PartialEq, Eq)]
pub enum Side {
    /// Past the low edge.
    Below,
    /// Inside the arena or on an edge.
    Within,
    /// Past the high edge.
    Above,
}

/// One of the four arena edges.
#[derive(Clone, Copy, Debug, PartialEq, Eq)]
pub enum Edge {
    /// The edge at the least x.
    XLow,
    /// The edge at the greatest x.
    XHigh,
    /// The edge at the least y.
    YLow,
    /// The edge at the greatest y.
    YHigh,
}

/// One step of an agent's update.
#[derive(Clone, Copy, Debug, PartialEq, Eq)]
pub enum Step {
    /// Blend the frame's flocking force into the velocity.
    Flock,
    /// Push back from an edge that the agent has crossed, along the edge's
    /// inward normal.
    Repel(Edge),
    /// Move the position by one step of the velocity.
    Integrate,
    /// Bring the velocity back to unit length.
    Renormalize,
    /// Blend random wander into the velocity.
    Wander,
}

impl Edge {
    /// The unit normal of the edge that points into the arena.
    pub open spec fn inward_spec(self) -> (int, int) {
        match self {
            Edge::XLow => (1, 0),
            Edge::XHigh => (-1, 0),
            Edge::YLow => (0, 1),
            Edge::YHigh => (0, -1),
        }
    }

    /// The unit normal of the edge that points into the arena.
    pub fn inward(self) -> (normal: (i8, i8))
        ensures
            (normal.0 as int, normal.1 as int) == self.inward_spec(),
    {
        match self {
            Edge::XLow => (1, 0),
            Edge::XHigh => (-1, 0),
            Edge::YLow => (0, 1),
            Edge::YHigh => (0, -1),
        }
    }
}

/// The edge of an axis that a coordinate on `side` has crossed, if any.
pub open spec fn crossed(side: Side, low: Edge, high: Edge) -> Seq<Step> {
    match side {
        Side::Below => seq![Step::Repel(low)],
        Side::Within => Seq::empty(),
        Side::Above => seq![Step::Repel(high)],
    }
}

/// The pushes back from the edges that an agent has crossed: first along
/// x, then along y. An agent past a corner gets both.
pub open spec fn repulsions(x: Side, y: Side) -> Seq<Step> {
    crossed(x, Edge::XLow, Edge::XHigh) + crossed(y, Edge::YLow, Edge::YHigh)
}

/// The steps of an agent's local update, in order.
pub open spec fn local_update(x: Side, y: Side) -> Seq<Step> {
    repulsions(x, y) + seq![Step::Integrate, Step::Renormalize, Step::Wander]
}

/// The steps that the commit of a frame takes on one agent: the flocking
/// force first, where the agent has neighbours, then the local update. An
/// agent without neighbours has no flocking force, and none is blended.
pub open spec fn commit_update(flocking: bool, x: Side, y: Side) -> Seq<Step> {
    if flocking {
        seq![Step::Flock] + local_update(x, y)
    } else {
        local_update(x, y)
    }
}

/// The steps of the local update of an agent whose coordinates lie on the
/// sides `x` and `y` of the arena.
pub fn local_steps(x: Side, y: Side) -> (steps: Vec<Step>)
    ensures
        steps@ == local_update(x, y),
{
    let mut steps: Vec<Step> = Vec::new();
    match x {
        Side::Below => steps.push(Step::Repel(Edge::XLow)),
        Side::Within => {},
        Side::Above => steps.push(Step::Repel(Edge::XHigh)),
    }
    match y {
        Side::Below => steps.push(Step::Repel(Edge::YLow)),
        Side::Within => {},
        Side::Above => steps.push(Step::Repel(Edge::YHigh)),
    }
    steps.push(Step::Integrate);
    steps.push(Step::Renormalize);
    steps.push(Step::Wander);
    assert(steps@ =~= local_update(x, y));
    steps
}

/// The steps that the commit of a frame takes on an agent whose
/// coordinates lie on the sides `x` and `y` of the arena; `flocking` tells
/// whether the frame found the agent any neighbours.
pub fn commit_steps(flocking: bool, x: Side, y: Side) -> (steps: Vec<Step>)
    ensures
        steps@ == commit_update(flocking, x, y),
{
    let mut steps: Vec<Step> = Vec::new();
    if flocking {
        steps.push(Step::Flock);
    }
    let mut local = local_steps(x, y);
    steps.append(&mut local);
    assert(steps@ =~= commit_update(flocking, x, y));
    steps
}

/// An agent without neighbours is moved by the arena's edges and by wander
/// alone: no step of its commit blends a flocking force.
pub proof fn lemma_alone_means_no_flocking(x: Side, y: Side, i: int)
    requires
        0 <= i < commit_update(false, x, y).len(),
    ensures
        commit_update(false, x, y) == local_update(x, y),
        commit_update(false, x, y)[i] != Step::Flock,
{
}

/// An agent with neighbours takes the flocking force before anything else,
/// and once.
pub proof fn lemma_flocking_comes_first(x: Side, y: Side, i: int)
    requires
        0 <= i < commit_update(true, x, y).len(),
    ensures
        commit_update(true, x, y).len() == local_update(x, y).len() + 1,
        commit_update(true, x, y)[i] == Step::Flock <==> i == 0,
        i > 0 ==> commit_update(true, x, y)[i] == local_update(x, y)[i - 1],
{
}

/// An agent inside the arena or on its edges is not pushed: its local
/// update is to integrate, renormalize and wander, and nothing else.
pub proof fn lemma_no_push_within()
    ensures
        local_update(Side::Within, Side::Within) == seq![
            Step::Integrate,
            Step::Renormalize,
            Step::Wander,
        ],
{
    assert(local_update(Side::Within, Side::Within) =~= seq![
        Step::Integrate,
        Step::Renormalize,
        Step::Wander,
    ]);
}

/// The number of pushes is the number of axes on which the agent is
/// outside, and the update always ends by integrating, renormalizing and
/// wandering, in that order.
pub proof fn lemma_update_shape(x: Side, y: Side)
    ensures
        repulsions(x, y).len() == (if x is Within { 0int } else { 1 }) + (if y is Within {
            0int
        } else {
            1
        }),
        local_update(x, y).len() == repulsions(x, y).len() + 3,
        local_update(x, y).subrange(repulsions(x, y).len() as int, local_update(x, y).len() as int)
            == seq![Step::Integrate, Step::Renormalize, Step::Wander],
        forall|i: int|
            0 <= i < repulsions(x, y).len() ==> (#[trigger] local_update(x, y)[i]) is Repel,
{
    assert(local_update(x, y).subrange(
        repulsions(x, y).len() as int,
        local_update(x, y).len() as int,
    ) =~= seq![Step::Integrate, Step::Renormalize, Step::Wander]);
}

/// A push points back into the arena: along the axis of the edge, against
/// the side on which the agent is outside, and not at all along the other
/// axis.
pub proof fn lemma_push_points_inward(x: Side, y: Side, i: int)
    requires
        0 <= i < repulsions(x, y).len(),
    ensures
        match repulsions(x, y)[i] {
            Step::Repel(Edge::XLow) => x is Below && Edge::XLow.inward_spec() == (1int, 0int),
            Step::Repel(Edge::XHigh) => x is Above && Edge::XHigh.inward_spec() == (-1int, 0int),
            Step::Repel(Edge::YLow) => y is Below && Edge::YLow.inward_spec() == (0int, 1int),
            Step::Repel(Edge::YHigh) => y is Above && Edge::YHigh.inward_spec() == (0int, -1int),
            _ => false,
        },
{
}

} // verus!
