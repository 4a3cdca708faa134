//! The integration pass: each agent's steering triple becomes its new
//! acceleration, velocity and position.
//!
//! Per agent: the three steering terms are summed and clamped to the
//! maximum acceleration; the velocity picks up `acceleration * dt` and is
//! clamped into the configured speed band; the position advances by
//! `velocity * dt` and wraps around the toroidal arena by true remainder,
//! so a displacement larger than an arena extent still lands inside.

use vstd::prelude::*;
use vstd::math::abs;
use crate::fxp::{
    sq, div_trunc, wrap_around, FP_ONE, div_trunc_i128, mul_i128, wrap_i64,
    lemma_div_trunc_facts,
};
use crate::vec2::{
    Vec2, spec_clamp_mag_down, spec_clamp_speed, clamp_mag_down_vec, clamp_speed_vec,
    lemma_comp_le_norm, SPEED_SLACK,
};
use crate::agent::{Agent, AgentStore, agents_wf, agent_wf, in_arena};
use crate::config::SimulationConfig;
use crate::steer::steering_in_bounds;

verus! {

/// The new acceleration of an agent: the sum of its steering terms,
/// clamped to the maximum acceleration with direction preserved.
pub open spec fn spec_accel(a: Agent, cfg: SimulationConfig) -> (int, int) {
    let ax = a.steering.alignment.x + a.steering.cohesion.x + a.steering.repulsion.x;
    let ay = a.steering.alignment.y + a.steering.cohesion.y + a.steering.repulsion.y;
    spec_clamp_mag_down(ax, ay, cfg.max_acceleration as int)
}

/// The new velocity of an agent: the old velocity plus `acceleration * dt`,
/// clamped into the configured speed band.
pub open spec fn spec_velocity(a: Agent, cfg: SimulationConfig, dt: int) -> (int, int) {
    let acc = spec_accel(a, cfg);
    let vx = a.velocity.x + div_trunc(acc.0 * dt, FP_ONE as int);
    let vy = a.velocity.y + div_trunc(acc.1 * dt, FP_ONE as int);
    spec_clamp_speed(vx, vy, cfg.min_speed as int, cfg.max_speed as int)
}

/// The new position of an agent: the old position plus `velocity * dt`,
/// wrapped into the arena.
pub open spec fn spec_position(a: Agent, cfg: SimulationConfig, dt: int) -> (int, int) {
    let vel = spec_velocity(a, cfg, dt);
    (
        wrap_around(a.position.x + div_trunc(vel.0 * dt, FP_ONE as int), cfg.width as int),
        wrap_around(a.position.y + div_trunc(vel.1 * dt, FP_ONE as int), cfg.height as int),
    )
}

/// The fully integrated agent; the steering scratch is left as the
/// neighbor-interaction pass wrote it.
pub open spec fn spec_integrate(a: Agent, cfg: SimulationConfig, dt: int) -> Agent {
    Agent {
        position: Vec2 {
            x: spec_position(a, cfg, dt).0 as i64,
            y: spec_position(a, cfg, dt).1 as i64,
        },
        velocity: Vec2 {
            x: spec_velocity(a, cfg, dt).0 as i64,
            y: spec_velocity(a, cfg, dt).1 as i64,
        },
        acceleration: Vec2 {
            x: spec_accel(a, cfg).0 as i64,
            y: spec_accel(a, cfg).1 as i64,
        },
        steering: a.steering,
    }
}

/// Integrate one agent over a time step of `dt` fixed-point seconds.
pub fn integrate_agent(a: &Agent, cfg: &SimulationConfig, dt: i64) -> (r: Agent)
    requires
        cfg.valid(),
        agent_wf(*a, *cfg),
        steering_in_bounds(a.steering),
        0 <= dt <= 0x4000_0000,
    ensures
        r == spec_integrate(*a, *cfg, dt as int),
        agent_wf(r, *cfg),
        r.acceleration.norm2() <= sq(cfg.max_acceleration as int),
        r.velocity.norm2() <= sq(cfg.max_speed as int),
        cfg.min_speed >= SPEED_SLACK ==> r.velocity.norm2() >= sq(
            cfg.min_speed - SPEED_SLACK),
        r.steering == a.steering,
    {
    proof {
        lemma_comp_le_norm(a.velocity.x as int, a.velocity.y as int, cfg.max_speed as int);
    }
    // acceleration: sum the steering terms and clamp
    let ax = a.steering.alignment.x + a.steering.cohesion.x + a.steering.repulsion.x;
    let ay = a.steering.alignment.y + a.steering.cohesion.y + a.steering.repulsion.y;
    let acc = clamp_mag_down_vec(Vec2 { x: ax, y: ay }, cfg.max_acceleration);
    proof {
        lemma_comp_le_norm(acc.x as int, acc.y as int, cfg.max_acceleration as int);
    }
    // velocity: apply the acceleration over dt and clamp into the band
    proof {
        assert(abs((acc.x as int) * (dt as int)) <= 0x1000_0000_0000_0000 && abs((
        acc.y as int) * (dt as int)) <= 0x1000_0000_0000_0000) by (nonlinear_arith)
            requires
                -0x4000_0000 <= acc.x as int <= 0x4000_0000,
                -0x4000_0000 <= acc.y as int <= 0x4000_0000,
                0 <= dt as int <= 0x4000_0000,
        ;
    }
    let dvx = div_trunc_i128(mul_i128(acc.x as i128, dt as i128), FP_ONE as i128);
    let dvy = div_trunc_i128(mul_i128(acc.y as i128, dt as i128), FP_ONE as i128);
    proof {
        lemma_div_trunc_facts((acc.x as int) * (dt as int), FP_ONE as int);
        lemma_div_trunc_facts((acc.y as int) * (dt as int), FP_ONE as int);
        assert(abs(dvx as int) <= 0x1000_0000_0000_0000 && abs(dvy as int)
            <= 0x1000_0000_0000_0000) by (nonlinear_arith)
            requires
                abs(dvx as int) * (FP_ONE as int) <= abs((acc.x as int) * (dt as int)),
                abs(dvy as int) * (FP_ONE as int) <= abs((acc.y as int) * (dt as int)),
                abs((acc.x as int) * (dt as int)) <= 0x1000_0000_0000_0000,
                abs((acc.y as int) * (dt as int)) <= 0x1000_0000_0000_0000,
                FP_ONE as int >= 1,
                abs(dvx as int) >= 0,
                abs(dvy as int) >= 0,
        ;
    }
    let vx = a.velocity.x + (dvx as i64);
    let vy = a.velocity.y + (dvy as i64);
    let vel = clamp_speed_vec(Vec2 { x: vx, y: vy }, cfg.min_speed, cfg.max_speed);
    proof {
        lemma_comp_le_norm(vel.x as int, vel.y as int, cfg.max_speed as int);
    }
    // position: advance by the velocity over dt and wrap into the arena
    proof {
        assert(abs((vel.x as int) * (dt as int)) <= 0x1000_0000_0000_0000 && abs((
        vel.y as int) * (dt as int)) <= 0x1000_0000_0000_0000) by (nonlinear_arith)
            requires
                -0x4000_0000 <= vel.x as int <= 0x4000_0000,
                -0x4000_0000 <= vel.y as int <= 0x4000_0000,
                0 <= dt as int <= 0x4000_0000,
        ;
    }
    let dpx = div_trunc_i128(mul_i128(vel.x as i128, dt as i128), FP_ONE as i128);
    let dpy = div_trunc_i128(mul_i128(vel.y as i128, dt as i128), FP_ONE as i128);
    proof {
        lemma_div_trunc_facts((vel.x as int) * (dt as int), FP_ONE as int);
        lemma_div_trunc_facts((vel.y as int) * (dt as int), FP_ONE as int);
        assert(abs(dpx as int) <= 0x1000_0000_0000_0000 && abs(dpy as int)
            <= 0x1000_0000_0000_0000) by (nonlinear_arith)
            requires
                abs(dpx as int) * (FP_ONE as int) <= abs((vel.x as int) * (dt as int)),
                abs(dpy as int) * (FP_ONE as int) <= abs((vel.y as int) * (dt as int)),
                abs((vel.x as int) * (dt as int)) <= 0x1000_0000_0000_0000,
                abs((vel.y as int) * (dt as int)) <= 0x1000_0000_0000_0000,
                FP_ONE as int >= 1,
                abs(dpx as int) >= 0,
                abs(dpy as int) >= 0,
        ;
    }
    let px = wrap_i64(a.position.x + (dpx as i64), cfg.width);
    let py = wrap_i64(a.position.y + (dpy as i64), cfg.height);
    Agent {
        position: Vec2 { x: px, y: py },
        velocity: vel,
        acceleration: acc,
        steering: a.steering,
    }
}

/// The integration pass, run over the whole store: every agent moves by
/// its own steering triple; each agent's update reads only that agent.
pub struct MoveSystem;

impl MoveSystem {
    pub fn run(store: &mut AgentStore, cfg: &SimulationConfig, dt: i64)
        requires
            cfg.valid(),
            agents_wf(old(store)@, *cfg),
            0 <= dt <= 0x4000_0000,
            forall|k: int|
                0 <= k < old(store)@.len() ==> steering_in_bounds(
                    #[trigger] old(store)@[k].steering),
        ensures
            final(store)@.len() == old(store)@.len(),
            forall|k: int|
                0 <= k < old(store)@.len() ==> #[trigger] final(store)@[k]
                    == spec_integrate(old(store)@[k], *cfg, dt as int),
            agents_wf(final(store)@, *cfg),
            forall|k: int|
                0 <= k < old(store)@.len() ==> #[trigger] final(store)@[k].acceleration.norm2()
                    <= sq(cfg.max_acceleration as int),
            cfg.min_speed >= SPEED_SLACK ==> forall|k: int|
                0 <= k < old(store)@.len() ==> #[trigger] final(store)@[k].velocity.norm2()
                    >= sq(cfg.min_speed - SPEED_SLACK),
    {
        let n = store.agents.len();
        let mut out: Vec<Agent> = Vec::new();
        let mut k: usize = 0;
        while k < n
            invariant
                n == old(store)@.len(),
                cfg.valid(),
                agents_wf(old(store)@, *cfg),
                0 <= dt <= 0x4000_0000,
                forall|t: int|
                    0 <= t < n ==> steering_in_bounds(#[trigger] old(store)@[t].steering),
                store@ == old(store)@,
                k <= n,
                out@.len() == k,
                forall|t: int|
                    0 <= t < k ==> #[trigger] out@[t] == spec_integrate(old(store)@[t],
                        *cfg, dt as int),
                forall|t: int| 0 <= t < k ==> agent_wf(#[trigger] out@[t], *cfg),
                forall|t: int|
                    0 <= t < k ==> #[trigger] out@[t].acceleration.norm2() <= sq(
                        cfg.max_acceleration as int),
                cfg.min_speed >= SPEED_SLACK ==> forall|t: int|
                    0 <= t < k ==> #[trigger] out@[t].velocity.norm2() >= sq(
                        cfg.min_speed - SPEED_SLACK),
            decreases n - k,
        {
            let a = store.agents[k];
            let r = integrate_agent(&a, cfg, dt);
            out.push(r);
            k = k + 1;
        }
        store.agents = out;
    }
}

} // verus!
