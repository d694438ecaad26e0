//! The triangles that an agent is drawn with.
//!
//! An agent is drawn as a polygon of [`VERTEX_COUNT`] corners. The corners
//! of all agents stand in one vertex list, agent after agent; the polygon
//! is cut into a fan of triangles that all start at the agent's first
//! corner.

use vstd::prelude::*;

verus! {

/// The number of corners of an agent's polygon.
pub const VERTEX_COUNT: u32 = 8;

/// The number of triangles that the polygon is cut into.
pub const TRIANGLE_COUNT: u32 = 6;

/// The largest agent number whose corners can still be numbered.
pub const MAX_AGENT: u32 = 0x1fff_ffff;

/// Corner `corner` of triangle `triangle` of agent `agent`, as a place in
/// the vertex list.
pub open spec fn fan_corner(agent: int, triangle: int, corner: int) -> int {
    if corner == 0 {
        agent * 8
    } else {
        agent * 8 + triangle + corner
    }
}

/// The corners of the six triangles of agent `agent`, three for each.
pub open spec fn fan(agent: u32) -> Seq<u32> {
    Seq::new(18, |j: int| fan_corner(agent as int, j / 3, j % 3) as u32)
}

/// Every triangle of an agent has three different corners, all among the
/// agent's own eight.
pub proof fn lemma_fan_stays_in_polygon(agent: u32, j: int)
    requires
        agent <= MAX_AGENT,
        0 <= j < 18,
    ensures
        agent * 8 <= fan(agent)[j] < agent * 8 + 8,
        fan(agent)[j - j % 3] < fan(agent)[j - j % 3 + 1] < fan(agent)[j - j % 3 + 2],
{
}

/// Appends the triangles of agent `agent` to the index list.
pub fn push_fan(indices: &mut Vec<u32>, agent: u32)
    requires
        agent <= MAX_AGENT,
    ensures
        final(indices)@ == old(indices)@ + fan(agent),
{
    let base: u32 = agent * VERTEX_COUNT;
    let mut triangle: u32 = 0;
    while triangle < TRIANGLE_COUNT
        invariant
            triangle <= TRIANGLE_COUNT,
            agent <= MAX_AGENT,
            base == agent * 8,
            indices@ == old(indices)@ + fan(agent).take(3 * triangle),
        decreases TRIANGLE_COUNT - triangle,
    {
        indices.push(base);
        indices.push(base + triangle + 1);
        indices.push(base + triangle + 2);
        triangle = triangle + 1;
        assert(indices@ =~= old(indices)@ + fan(agent).take(3 * triangle));
    }
    assert(fan(agent).take(18) == fan(agent));
}

} // verus!
