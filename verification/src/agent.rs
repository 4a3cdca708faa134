//! Per-agent state and the store that owns all of it.
//!
//! An agent is position, velocity, acceleration and the per-tick steering
//! scratch triple. The store is a contiguous vector of agents indexed by a
//! plain integer identity; it owns every piece of mutable simulation state.

use vstd::prelude::*;
use crate::fxp::sq;
use crate::vec2::Vec2;
use crate::config::SimulationConfig;

verus! {

/// Per-tick steering accumulators, fully overwritten by every
/// neighbor-interaction pass.
#[derive(Clone, Copy, Debug, PartialEq, Eq, Structural)]
pub struct Steering {
    pub alignment: Vec2,
    pub cohesion: Vec2,
    pub repulsion: Vec2,
}

/// The all-zero steering triple.
pub open spec fn steering_zero() -> Steering {
    Steering {
        alignment: Vec2 { x: 0, y: 0 },
        cohesion: Vec2 { x: 0, y: 0 },
        repulsion: Vec2 { x: 0, y: 0 },
    }
}

impl Steering {
    pub fn zero() -> (s: Steering)
        ensures
            s == steering_zero(),
    {
        Steering {
            alignment: Vec2 { x: 0, y: 0 },
            cohesion: Vec2 { x: 0, y: 0 },
            repulsion: Vec2 { x: 0, y: 0 },
        }
    }
}

/// One simulated entity.
#[derive(Clone, Copy, Debug, PartialEq, Eq, Structural)]
pub struct Agent {
    /// World-space coordinates, mutated only by the integration pass.
    pub position: Vec2,
    /// Current heading times speed.
    pub velocity: Vec2,
    /// Net steering force of the last completed tick.
    pub acceleration: Vec2,
    /// Per-tick scratch, written by the neighbor-interaction pass.
    pub steering: Steering,
}

/// The position lies inside the centered half-open arena rectangle.
pub open spec fn in_arena(p: Vec2, cfg: SimulationConfig) -> bool {
    &&& -(cfg.width as int / 2) <= p.x as int
    &&& (p.x as int) < cfg.width as int - cfg.width as int / 2
    &&& -(cfg.height as int / 2) <= p.y as int
    &&& (p.y as int) < cfg.height as int - cfg.height as int / 2
}

/// The per-agent invariant: inside the arena, speed within the upper clamp.
pub open spec fn agent_wf(a: Agent, cfg: SimulationConfig) -> bool {
    &&& in_arena(a.position, cfg)
    &&& a.velocity.norm2() <= sq(cfg.max_speed as int)
}

/// The store invariant: one agent per configured head of population, each
/// well-formed.
pub open spec fn agents_wf(s: Seq<Agent>, cfg: SimulationConfig) -> bool {
    &&& s.len() == cfg.population
    &&& forall|i: int| 0 <= i < s.len() ==> agent_wf(#[trigger] s[i], cfg)
}

/// The contiguous collection of all agent state; owns every mutable piece
/// of the simulation.
pub struct AgentStore {
    pub agents: Vec<Agent>,
}

impl View for AgentStore {
    type V = Seq<Agent>;

    open spec fn view(&self) -> Seq<Agent> {
        self.agents@
    }
}

impl AgentStore {
    /// Wrap an explicit agent vector as a store.
    pub fn from_agents(agents: Vec<Agent>) -> (r: AgentStore)
        ensures
            r@ == agents@,
    {
        AgentStore { agents }
    }

    /// Number of agents.
    pub fn len(&self) -> (n: usize)
        ensures
            n == self@.len(),
    {
        self.agents.len()
    }

    /// The full state of agent `i`.
    pub fn agent(&self, i: usize) -> (a: Agent)
        requires
            i < self@.len(),
        ensures
            a == self@[i as int],
    {
        self.agents[i]
    }

    /// The renderable state: one `(position, velocity)` pair per agent, in
    /// index order.
    pub fn positions_velocities(&self) -> (r: Vec<(Vec2, Vec2)>)
        ensures
            r@.len() == self@.len(),
            forall|i: int|
                0 <= i < self@.len() ==> r@[i] == (self@[i].position, self@[i].velocity),
    {
        let n = self.agents.len();
        let mut r: Vec<(Vec2, Vec2)> = Vec::new();
        let mut i: usize = 0;
        while i < n
            invariant
                n == self@.len(),
                i <= n,
                r@.len() == i,
                forall|j: int|
                    0 <= j < i ==> r@[j] == (self@[j].position, self@[j].velocity),
            decreases n - i,
        {
            let a = self.agents[i];
            r.push((a.position, a.velocity));
            i = i + 1;
        }
        r
    }
}

} // verus!
