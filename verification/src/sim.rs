//! The top-level simulation interface: create a run, advance it one tick
//! at a time, restart it.
//!
//! A tick is the neighbor-interaction pass followed by the integration
//! pass, over a snapshot of the state at the start of the tick. Both the
//! initial state and every tick are pure functions of their inputs, so a
//! run is determined by the configuration, the seed and the sequence of
//! time steps.

use vstd::prelude::*;
use crate::fxp::{sq, sqrt_floor, isqrt_u128, lemma_sqrt_floor_props};
use crate::vec2::{Vec2, SPEED_SLACK};
use crate::agent::{Agent, AgentStore, Steering, steering_zero, agents_wf, agent_wf, in_arena};
use crate::config::{SimulationConfig, ConfigError, PARAM_MAX};
use crate::rng::{SimRng, spec_advance, spec_draw_below};
use crate::steer::{BoidSystem, spec_steering};
use crate::motion::{MoveSystem, spec_integrate};

verus! {

/// The state of a whole tick: every agent's steering recomputed from the
/// snapshot `s`, then every agent integrated.
pub open spec fn spec_tick(s: Seq<Agent>, cfg: SimulationConfig, dt: int) -> Seq<Agent> {
    Seq::new(
        s.len(),
        |k: int|
            spec_integrate(Agent { steering: spec_steering(s, cfg, k), ..s[k] }, cfg, dt),
    )
}

/// The agent drawn from generator state `st0`, with the following state:
/// position uniform over the arena grid, speed uniform in the configured
/// band, heading from a uniform x component and a random sign for y.
pub open spec fn spec_init_agent(cfg: SimulationConfig, st0: u64) -> (u64, Agent) {
    let px = spec_draw_below(st0, cfg.width as u64) - cfg.width / 2;
    let st1 = spec_advance(st0);
    let py = spec_draw_below(st1, cfg.height as u64) - cfg.height / 2;
    let st2 = spec_advance(st1);
    let spd = cfg.min_speed + spec_draw_below(st2, (cfg.max_speed - cfg.min_speed + 1) as u64);
    let st3 = spec_advance(st2);
    let vx = spec_draw_below(st3, (2 * spd + 1) as u64) - spd;
    let st4 = spec_advance(st3);
    let vy_mag = sqrt_floor(sq(spd) - sq(vx));
    let vy = if spec_draw_below(st4, 2) == 0 {
        vy_mag
    } else {
        -vy_mag
    };
    let st5 = spec_advance(st4);
    (
        st5,
        Agent {
            position: Vec2 { x: px as i64, y: py as i64 },
            velocity: Vec2 { x: vx as i64, y: vy as i64 },
            acceleration: Vec2 { x: 0, y: 0 },
            steering: steering_zero(),
        },
    )
}

/// The first `k` agents drawn from seed state `st`, with the state left
/// by the draws.
pub open spec fn spec_init_seq(cfg: SimulationConfig, st: u64, k: int) -> (u64, Seq<Agent>)
    decreases k,
{
    if k <= 0 {
        (st, Seq::empty())
    } else {
        let prev = spec_init_seq(cfg, st, k - 1);
        let step = spec_init_agent(cfg, prev.0);
        (step.0, prev.1.push(step.1))
    }
}

/// The initial population for a configuration and seed.
pub open spec fn spec_initialize(cfg: SimulationConfig, seed: u64) -> Seq<Agent> {
    spec_init_seq(cfg, seed, cfg.population as int).1
}

/// The trajectory of a run: the initial population advanced by one tick
/// per entry of `dts`.
pub open spec fn spec_run(cfg: SimulationConfig, seed: u64, dts: Seq<int>) -> Seq<Agent>
    decreases dts.len(),
{
    if dts.len() == 0 {
        spec_initialize(cfg, seed)
    } else {
        spec_tick(spec_run(cfg, seed, dts.drop_last()), cfg, dts.last())
    }
}

/// Draw one fresh agent from the generator, exactly as `spec_init_agent`
/// describes.
#[verifier::rlimit(60)]
fn draw_agent(rng: &mut SimRng, config: &SimulationConfig) -> (a: Agent)
    requires
        config.valid(),
    ensures
        final(rng).state == spec_init_agent(*config, old(rng).state).0,
        a == spec_init_agent(*config, old(rng).state).1,
        agent_wf(a, *config),
{
    let ghost st0 = rng.state;
    let w2 = ((config.width as u64) / 2) as i64;
    let h2 = ((config.height as u64) / 2) as i64;
    let px = (rng.below(config.width as u64) as i64) - w2;
    let py = (rng.below(config.height as u64) as i64) - h2;
    let spd_range = ((config.max_speed - config.min_speed) as u64) + 1;
    let spd = config.min_speed + (rng.below(spd_range) as i64);
    let vx = (rng.below(2 * (spd as u64) + 1) as i64) - spd;
    proof {
        assert(0 <= spd * spd <= 0x1000_0000_0000_0000 && 0 <= vx * vx
            <= 0x1000_0000_0000_0000 && vx * vx <= spd * spd) by (nonlinear_arith)
            requires
                0 <= spd <= 0x4000_0000,
                -spd <= vx <= spd,
        ;
    }
    let m2 = spd * spd - vx * vx;
    proof {
        lemma_sqrt_floor_props(m2 as int);
    }
    let vy_root = isqrt_u128(m2 as u128);
    proof {
        assert(vy_root as int <= spd) by (nonlinear_arith)
            requires
                vy_root as int >= 0,
                (vy_root as int) * (vy_root as int) <= m2 as int,
                m2 as int <= spd * spd,
                spd >= 0,
        ;
    }
    let vy_mag = vy_root as i64;
    let sign = rng.below(2);
    let vy = if sign == 0 {
        vy_mag
    } else {
        -vy_mag
    };
    let a = Agent {
        position: Vec2 { x: px, y: py },
        velocity: Vec2 { x: vx, y: vy },
        acceleration: Vec2 { x: 0, y: 0 },
        steering: Steering::zero(),
    };
    proof {
        assert(a == spec_init_agent(*config, st0).1);
        assert(rng.state == spec_init_agent(*config, st0).0);
        // the drawn agent satisfies the store invariant
        assert(in_arena(a.position, *config));
        assert((vy as int) * (vy as int) == (vy_root as int) * (vy_root as int))
            by (nonlinear_arith)
            requires
                vy as int == vy_root as int || vy as int == -(vy_root as int),
        ;
        assert(a.velocity.norm2() <= sq(config.max_speed as int)) by (nonlinear_arith)
            requires
                a.velocity.norm2() == (vx as int) * (vx as int) + (vy as int) * (vy as int),
                (vy as int) * (vy as int) <= spd * spd - vx * vx,
                spd <= config.max_speed,
                0 <= spd,
                sq(config.max_speed as int) == (config.max_speed as int) * (
                config.max_speed as int),
        ;
    }
    a
}

/// Create the agent population for a run: `Ok` exactly on valid
/// configurations, with every agent drawn deterministically from the seed,
/// inside the arena and no faster than `max_speed` (the drawn speed sits
/// in the configured band; quantizing the heading can cost a unit or two
/// of it, and the first tick's clamp restores the band). On an invalid
/// configuration, exactly the error of `spec_validate` and no state at
/// all.
pub fn initialize(config: &SimulationConfig, seed: u64) -> (r: Result<AgentStore, ConfigError>)
    ensures
        r is Ok <==> config.valid(),
        r matches Err(e) ==> Err::<(), ConfigError>(e) == config.spec_validate(),
        r matches Ok(store) ==> store@ == spec_initialize(*config, seed) && agents_wf(
            store@, *config),
{
    match config.validate() {
        Err(e) => Err(e),
        Ok(()) => {
            let mut rng = SimRng::new(seed);
            let mut agents: Vec<Agent> = Vec::new();
            let n = config.population;
            let mut k: usize = 0;
            while k < n
                invariant
                    config.valid(),
                    n == config.population,
                    k <= n,
                    agents@.len() == k,
                    rng.state == spec_init_seq(*config, seed, k as int).0,
                    agents@ == spec_init_seq(*config, seed, k as int).1,
                    forall|t: int| 0 <= t < k ==> agent_wf(#[trigger] agents@[t], *config),
                decreases n - k,
            {
                let a = draw_agent(&mut rng, config);
                agents.push(a);
                k = k + 1;
            }
            Ok(AgentStore { agents })
        },
    }
}

/// Advance the whole population by one tick of `dt` fixed-point seconds.
///
/// After any completed tick, every agent lies inside the arena, its
/// acceleration magnitude is within `max_acceleration`, and its speed is
/// within `max_speed`; when `min_speed` is at least `SPEED_SLACK`, the
/// speed is also at least `min_speed - SPEED_SLACK`. With an empty
/// population the store is unchanged.
pub fn tick(store: &mut AgentStore, config: &SimulationConfig, dt: i64)
    requires
        config.valid(),
        agents_wf(old(store)@, *config),
        0 <= dt <= PARAM_MAX,
    ensures
        final(store)@ == spec_tick(old(store)@, *config, dt as int),
        agents_wf(final(store)@, *config),
        forall|k: int|
            0 <= k < final(store)@.len() ==> #[trigger] final(store)@[
                k].acceleration.norm2() <= sq(config.max_acceleration as int),
        config.min_speed >= SPEED_SLACK ==> forall|k: int|
            0 <= k < final(store)@.len() ==> #[trigger] final(store)@[k].velocity.norm2()
                >= sq(config.min_speed - SPEED_SLACK),
{
    let ghost s0 = store@;
    BoidSystem::run(store, config);
    MoveSystem::run(store, config, dt);
    proof {
        assert(store@ =~= spec_tick(s0, *config, dt as int));
    }
}

/// Reinitialize every agent from a fresh seed, keeping the population of
/// the given configuration: `Ok` exactly on valid configurations; on an
/// invalid one the store is left as it was and the validation error is
/// returned.
pub fn restart(store: &mut AgentStore, config: &SimulationConfig, seed: u64) -> (r: Result<
    (),
    ConfigError,
>)
    ensures
        r is Ok <==> config.valid(),
        r matches Err(e) ==> Err::<(), ConfigError>(e) == config.spec_validate() && *final(
            store) == *old(store),
        r is Ok ==> final(store)@ == spec_initialize(*config, seed) && agents_wf(
            final(store)@, *config),
{
    match initialize(config, seed) {
        Ok(fresh) => {
            *store = fresh;
            Ok(())
        },
        Err(e) => Err(e),
    }
}

/// Determinism of a run: the trajectory is a function of the
/// configuration, the seed and the time steps alone, so two runs over the
/// same inputs coincide exactly.
pub proof fn lemma_run_deterministic(
    cfg: SimulationConfig,
    seed: u64,
    dts: Seq<int>,
    a: Seq<Agent>,
    b: Seq<Agent>,
)
    requires
        a == spec_run(cfg, seed, dts),
        b == spec_run(cfg, seed, dts),
    ensures
        a == b,
{
}

/// With no agents, a tick changes nothing.
pub proof fn lemma_tick_empty(s: Seq<Agent>, cfg: SimulationConfig, dt: int)
    requires
        s.len() == 0,
    ensures
        spec_tick(s, cfg, dt) == s,
{
    assert(spec_tick(s, cfg, dt) =~= s);
}

/// With exactly one agent there are no neighbors: the steering triple is
/// zero, and after a tick the acceleration is exactly zero, so the motion
/// is straight-line until the arena wrap.
pub proof fn lemma_single_agent_ballistic(s: Seq<Agent>, cfg: SimulationConfig, dt: int)
    requires
        s.len() == 1,
    ensures
        spec_steering(s, cfg, 0) == steering_zero(),
        spec_tick(s, cfg, dt)[0].acceleration == (Vec2 { x: 0, y: 0 }),
{
    assert(crate::steer::cohesion_count(s, cfg, 0, 0) == 0);
    assert(crate::steer::cohesion_count(s, cfg, 0, 1) == 0);
    assert(crate::steer::alignment_count(s, cfg, 0, 0) == 0);
    assert(crate::steer::alignment_count(s, cfg, 0, 1) == 0);
    assert(crate::steer::repulsion_sum_x(s, cfg, 0, 0) == 0);
    assert(crate::steer::repulsion_sum_x(s, cfg, 0, 1) == 0);
    assert(crate::steer::repulsion_sum_y(s, cfg, 0, 0) == 0);
    assert(crate::steer::repulsion_sum_y(s, cfg, 0, 1) == 0);
    assert(crate::steer::spec_alignment(s, cfg, 0) == (0int, 0int));
    assert(crate::steer::spec_cohesion(s, cfg, 0) == (0int, 0int));
    assert(crate::steer::spec_repulsion(s, cfg, 0) == (0int, 0int));
    assert(spec_steering(s, cfg, 0) == steering_zero());
    let a = Agent { steering: spec_steering(s, cfg, 0), ..s[0] };
    assert(spec_tick(s, cfg, dt)[0] == spec_integrate(a, cfg, dt));
    assert(sq(cfg.max_acceleration as int) >= 0) by (nonlinear_arith);
    assert(crate::motion::spec_accel(a, cfg) == (0int, 0int));
}

/// Two agents at the same position are each skipped by the other's
/// repulsion scan: the zero-distance guard keeps the unit vector
/// singularity out, and both repulsion terms are exactly zero.
pub proof fn lemma_coincident_pair_repulsion(s: Seq<Agent>, cfg: SimulationConfig)
    requires
        s.len() == 2,
        s[0].position == s[1].position,
    ensures
        crate::steer::spec_repulsion(s, cfg, 0) == (0int, 0int),
        crate::steer::spec_repulsion(s, cfg, 1) == (0int, 0int),
{
    assert(crate::steer::dist_sq(s, 0, 1) == 0);
    assert(crate::steer::dist_sq(s, 1, 0) == 0);
    assert(!crate::steer::in_repulsion(s, cfg, 0, 1));
    assert(!crate::steer::in_repulsion(s, cfg, 1, 0));
    assert(crate::steer::repulsion_sum_x(s, cfg, 0, 0) == 0);
    assert(crate::steer::repulsion_sum_x(s, cfg, 0, 1) == 0);
    assert(crate::steer::repulsion_sum_x(s, cfg, 0, 2) == 0);
    assert(crate::steer::repulsion_sum_y(s, cfg, 0, 0) == 0);
    assert(crate::steer::repulsion_sum_y(s, cfg, 0, 1) == 0);
    assert(crate::steer::repulsion_sum_y(s, cfg, 0, 2) == 0);
    assert(crate::steer::repulsion_sum_x(s, cfg, 1, 0) == 0);
    assert(crate::steer::repulsion_sum_x(s, cfg, 1, 1) == 0);
    assert(crate::steer::repulsion_sum_x(s, cfg, 1, 2) == 0);
    assert(crate::steer::repulsion_sum_y(s, cfg, 1, 0) == 0);
    assert(crate::steer::repulsion_sum_y(s, cfg, 1, 1) == 0);
    assert(crate::steer::repulsion_sum_y(s, cfg, 1, 2) == 0);
}

} // verus!
