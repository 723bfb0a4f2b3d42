//! Per-agent simulation state: behavioral mode, transform and velocity.

use vstd::prelude::*;

verus! {

use crate::vec2::Vec2I;

/// Behavioral mode of an agent. `Free → Follower → Captured` is one-way;
/// `Player` is a separate fixed mode held by exactly one agent.
#[derive(Clone, Copy, Debug, PartialEq, Eq, Structural)]
pub enum Type {
    Player,
    Free,
    Follower,
    Captured,
}

/// Mode component of an agent.
#[derive(Clone, Copy, Debug, PartialEq, Eq, Structural)]
pub struct IconType(pub Type);

/// Position and heading of an agent. The heading is in milliradians,
/// normalized to `[0, 2 * pi)`.
#[derive(Clone, Copy, Debug, PartialEq, Eq, Structural)]
pub struct IconTransform {
    pub position: Vec2I,
    pub rotation: i64,
}

/// Velocity component of an agent.
#[derive(Clone, Copy, Debug, PartialEq, Eq, Structural)]
pub struct IconVelocity(pub Vec2I);

/// One simulated agent: a stable identity plus its components.
#[derive(Clone, Copy, Debug, PartialEq, Eq, Structural)]
pub struct Agent {
    pub id: u64,
    pub transform: IconTransform,
    pub velocity: IconVelocity,
    pub icon_type: IconType,
}

impl Agent {
    /// Position, velocity and rotation within the representable ranges.
    pub open spec fn valid(self) -> bool {
        &&& self.transform.position.valid()
        &&& self.velocity.0.valid()
        &&& 0 <= self.transform.rotation < 6_284
    }
}

/// All agent identities in the list are distinct.
pub open spec fn ids_distinct(agents: Seq<Agent>) -> bool {
    forall|i: int, j: int| 0 <= i < j < agents.len() ==> agents[i].id != agents[j].id
}

/// Exactly one agent is in `Player` mode, and it is the one at `pi`.
pub open spec fn one_player_at(agents: Seq<Agent>, pi: int) -> bool {
    &&& 0 <= pi < agents.len()
    &&& agents[pi].icon_type.0 is Player
    &&& forall|i: int| 0 <= i < agents.len() && i != pi ==> !(#[trigger] agents[i].icon_type.0 is Player)
}

} // verus!
