//! The neighbor-interaction pass: for every agent, a scan over all other
//! agents produces the steering triple (alignment, cohesion, repulsion).
//!
//! The pass reads a consistent snapshot of every agent's position and
//! velocity and writes only each agent's own steering slot, so the ticks'
//! two-phase structure keeps it race-free however the per-agent work is
//! scheduled.
//!
//! For an ordered pair `(a, b)` with `a != b`, the pair contributes nothing
//! when the angle between `position_a - position_b` and `velocity_a` is
//! below the configured dead angle. The exclusion is expressed on cosines:
//! with `d` the offset and `v` the velocity, the neighbor is skipped when
//! `dot(d, v) * FP_ONE > dead_angle_cos * |d| * |v|`, magnitudes taken as
//! floor square roots; a zero offset or zero velocity never skips. A
//! zero-distance pair contributes no repulsion: that is the guard against
//! the `d / |d|` singularity.

use vstd::prelude::*;
use vstd::math::abs;
use crate::fxp::{
    sq, sqrt_floor, div_trunc, FP_ONE, isqrt_u128, div_trunc_i128, mul_i128,
    lemma_div_trunc_facts, lemma_sqrt_floor_props,
};
use crate::vec2::{Vec2, lemma_comp_le_norm, norm2_i128};
use crate::agent::{Agent, Steering, AgentStore, agents_wf, agent_wf, in_arena};
use crate::config::{SimulationConfig, PARAM_MAX, POPULATION_MAX};

verus! {

/// Largest cohesion steering component under a valid configuration.
pub const COHESION_MAX: i64 = 0x2000_0000_0000_0000;

/// Largest repulsion steering component under a valid configuration.
pub const REPULSION_MAX: i64 = 0x4000_0000_0000;

/// Offset from agent `j` to agent `i`, x component.
pub open spec fn delta_x(s: Seq<Agent>, i: int, j: int) -> int {
    s[i].position.x - s[j].position.x
}

/// Offset from agent `j` to agent `i`, y component.
pub open spec fn delta_y(s: Seq<Agent>, i: int, j: int) -> int {
    s[i].position.y - s[j].position.y
}

/// Squared distance between agents `i` and `j`.
pub open spec fn dist_sq(s: Seq<Agent>, i: int, j: int) -> int {
    sq(delta_x(s, i, j)) + sq(delta_y(s, i, j))
}

/// Dot product of the offset from `j` to `i` with the velocity of `i`.
pub open spec fn vel_dot_delta(s: Seq<Agent>, i: int, j: int) -> int {
    delta_x(s, i, j) * s[i].velocity.x + delta_y(s, i, j) * s[i].velocity.y
}

/// The dead-angle exclusion: agent `j` is invisible to agent `i` when the
/// angle between the offset `position_i - position_j` and `velocity_i` is
/// below the dead angle, which on cosines reads as below. Degenerate pairs
/// (zero offset or zero velocity) are never skipped.
pub open spec fn skip_neighbor(s: Seq<Agent>, cfg: SimulationConfig, i: int, j: int) -> bool {
    let dd = dist_sq(s, i, j);
    let v2 = s[i].velocity.norm2();
    &&& dd > 0
    &&& v2 > 0
    &&& vel_dot_delta(s, i, j) * (FP_ONE as int) > cfg.dead_angle_cos
        * (sqrt_floor(dd) * sqrt_floor(v2))
}

/// Agent `j` contributes to the cohesion of agent `i`.
pub open spec fn in_cohesion(s: Seq<Agent>, cfg: SimulationConfig, i: int, j: int) -> bool {
    &&& j != i
    &&& !skip_neighbor(s, cfg, i, j)
    &&& dist_sq(s, i, j) < sq(cfg.cohesion_radius as int)
}

/// Agent `j` contributes to the alignment of agent `i`.
pub open spec fn in_alignment(s: Seq<Agent>, cfg: SimulationConfig, i: int, j: int) -> bool {
    &&& j != i
    &&& !skip_neighbor(s, cfg, i, j)
    &&& dist_sq(s, i, j) < sq(cfg.alignment_radius as int)
}

/// Agent `j` contributes to the repulsion of agent `i`; a zero-distance
/// pair is excluded, which guards the unit-vector singularity.
pub open spec fn in_repulsion(s: Seq<Agent>, cfg: SimulationConfig, i: int, j: int) -> bool {
    &&& j != i
    &&& !skip_neighbor(s, cfg, i, j)
    &&& 0 < dist_sq(s, i, j) < sq(cfg.repulsion_radius as int)
}

/// Number of cohesion neighbors of `i` among the first `k` agents.
pub open spec fn cohesion_count(s: Seq<Agent>, cfg: SimulationConfig, i: int, k: int) -> int
    decreases k,
{
    if k <= 0 {
        0
    } else {
        cohesion_count(s, cfg, i, k - 1) + if in_cohesion(s, cfg, i, k - 1) {
            1int
        } else {
            0int
        }
    }
}

/// Sum of the x positions of the cohesion neighbors of `i` among the
/// first `k` agents.
pub open spec fn cohesion_sum_x(s: Seq<Agent>, cfg: SimulationConfig, i: int, k: int) -> int
    decreases k,
{
    if k <= 0 {
        0
    } else {
        cohesion_sum_x(s, cfg, i, k - 1) + if in_cohesion(s, cfg, i, k - 1) {
            s[k - 1].position.x as int
        } else {
            0int
        }
    }
}

/// Sum of the y positions of the cohesion neighbors of `i` among the
/// first `k` agents.
pub open spec fn cohesion_sum_y(s: Seq<Agent>, cfg: SimulationConfig, i: int, k: int) -> int
    decreases k,
{
    if k <= 0 {
        0
    } else {
        cohesion_sum_y(s, cfg, i, k - 1) + if in_cohesion(s, cfg, i, k - 1) {
            s[k - 1].position.y as int
        } else {
            0int
        }
    }
}

/// Number of alignment neighbors of `i` among the first `k` agents.
pub open spec fn alignment_count(s: Seq<Agent>, cfg: SimulationConfig, i: int, k: int) -> int
    decreases k,
{
    if k <= 0 {
        0
    } else {
        alignment_count(s, cfg, i, k - 1) + if in_alignment(s, cfg, i, k - 1) {
            1int
        } else {
            0int
        }
    }
}

/// Sum of the x velocities of the alignment neighbors of `i` among the
/// first `k` agents.
pub open spec fn alignment_sum_x(s: Seq<Agent>, cfg: SimulationConfig, i: int, k: int) -> int
    decreases k,
{
    if k <= 0 {
        0
    } else {
        alignment_sum_x(s, cfg, i, k - 1) + if in_alignment(s, cfg, i, k - 1) {
            s[k - 1].velocity.x as int
        } else {
            0int
        }
    }
}

/// Sum of the y velocities of the alignment neighbors of `i` among the
/// first `k` agents.
pub open spec fn alignment_sum_y(s: Seq<Agent>, cfg: SimulationConfig, i: int, k: int) -> int
    decreases k,
{
    if k <= 0 {
        0
    } else {
        alignment_sum_y(s, cfg, i, k - 1) + if in_alignment(s, cfg, i, k - 1) {
            s[k - 1].velocity.y as int
        } else {
            0int
        }
    }
}

/// Repulsion contribution of neighbor `j` to agent `i`, x component: the
/// unit vector away from `j`, scaled by the repulsion factor.
pub open spec fn repulsion_term_x(s: Seq<Agent>, cfg: SimulationConfig, i: int, j: int) -> int {
    div_trunc(delta_x(s, i, j) * cfg.repulsion_factor, sqrt_floor(dist_sq(s, i, j)))
}

/// Repulsion contribution of neighbor `j` to agent `i`, y component.
pub open spec fn repulsion_term_y(s: Seq<Agent>, cfg: SimulationConfig, i: int, j: int) -> int {
    div_trunc(delta_y(s, i, j) * cfg.repulsion_factor, sqrt_floor(dist_sq(s, i, j)))
}

/// Sum of the repulsion contributions to `i` among the first `k` agents,
/// x component.
pub open spec fn repulsion_sum_x(s: Seq<Agent>, cfg: SimulationConfig, i: int, k: int) -> int
    decreases k,
{
    if k <= 0 {
        0
    } else {
        repulsion_sum_x(s, cfg, i, k - 1) + if in_repulsion(s, cfg, i, k - 1) {
            repulsion_term_x(s, cfg, i, k - 1)
        } else {
            0int
        }
    }
}

/// Sum of the repulsion contributions to `i` among the first `k` agents,
/// y component.
pub open spec fn repulsion_sum_y(s: Seq<Agent>, cfg: SimulationConfig, i: int, k: int) -> int
    decreases k,
{
    if k <= 0 {
        0
    } else {
        repulsion_sum_y(s, cfg, i, k - 1) + if in_repulsion(s, cfg, i, k - 1) {
            repulsion_term_y(s, cfg, i, k - 1)
        } else {
            0int
        }
    }
}

/// The cohesion steering of agent `i`: the offset from the agent to the
/// centroid of its cohesion neighbors, divided by the cohesion radius and
/// scaled by the cohesion factor; zero without neighbors.
pub open spec fn spec_cohesion(s: Seq<Agent>, cfg: SimulationConfig, i: int) -> (int, int) {
    let k = s.len() as int;
    let n = cohesion_count(s, cfg, i, k);
    if n > 0 && cfg.cohesion_radius > 0 {
        let cx = div_trunc(cohesion_sum_x(s, cfg, i, k), n) - s[i].position.x;
        let cy = div_trunc(cohesion_sum_y(s, cfg, i, k), n) - s[i].position.y;
        (
            div_trunc(cx * cfg.cohesion_factor, cfg.cohesion_radius as int),
            div_trunc(cy * cfg.cohesion_factor, cfg.cohesion_radius as int),
        )
    } else {
        (0, 0)
    }
}

/// The alignment steering of agent `i`: the offset from the agent's
/// velocity to the average velocity of its alignment neighbors, divided by
/// twice the maximum speed and scaled by the alignment factor; zero
/// without neighbors.
pub open spec fn spec_alignment(s: Seq<Agent>, cfg: SimulationConfig, i: int) -> (int, int) {
    let k = s.len() as int;
    let n = alignment_count(s, cfg, i, k);
    if n > 0 && cfg.max_speed > 0 {
        let ax = div_trunc(alignment_sum_x(s, cfg, i, k), n) - s[i].velocity.x;
        let ay = div_trunc(alignment_sum_y(s, cfg, i, k), n) - s[i].velocity.y;
        (
            div_trunc(ax * cfg.alignment_factor, 2 * cfg.max_speed),
            div_trunc(ay * cfg.alignment_factor, 2 * cfg.max_speed),
        )
    } else {
        (0, 0)
    }
}

/// The repulsion steering of agent `i`: the sum of the per-neighbor terms.
pub open spec fn spec_repulsion(s: Seq<Agent>, cfg: SimulationConfig, i: int) -> (int, int) {
    let k = s.len() as int;
    (repulsion_sum_x(s, cfg, i, k), repulsion_sum_y(s, cfg, i, k))
}

/// The full steering triple of agent `i`.
pub open spec fn spec_steering(s: Seq<Agent>, cfg: SimulationConfig, i: int) -> Steering {
    Steering {
        alignment: Vec2 {
            x: spec_alignment(s, cfg, i).0 as i64,
            y: spec_alignment(s, cfg, i).1 as i64,
        },
        cohesion: Vec2 {
            x: spec_cohesion(s, cfg, i).0 as i64,
            y: spec_cohesion(s, cfg, i).1 as i64,
        },
        repulsion: Vec2 {
            x: spec_repulsion(s, cfg, i).0 as i64,
            y: spec_repulsion(s, cfg, i).1 as i64,
        },
    }
}

/// Component bounds every steering triple computed under a valid
/// configuration satisfies.
pub open spec fn steering_in_bounds(st: Steering) -> bool {
    &&& -PARAM_MAX <= st.alignment.x <= PARAM_MAX
    &&& -PARAM_MAX <= st.alignment.y <= PARAM_MAX
    &&& -COHESION_MAX <= st.cohesion.x <= COHESION_MAX
    &&& -COHESION_MAX <= st.cohesion.y <= COHESION_MAX
    &&& -REPULSION_MAX <= st.repulsion.x <= REPULSION_MAX
    &&& -REPULSION_MAX <= st.repulsion.y <= REPULSION_MAX
}

/// An in-arena position has both coordinates within the arena extent.
pub proof fn lemma_arena_comp_bounds(p: Vec2, cfg: SimulationConfig)
    requires
        cfg.valid(),
        in_arena(p, cfg),
    ensures
        -PARAM_MAX <= p.x <= PARAM_MAX,
        -PARAM_MAX <= p.y <= PARAM_MAX,
{
}

/// The steering triple of agent `i`, computed from a read-only snapshot of
/// all agents.
pub fn steering_for(agents: &Vec<Agent>, cfg: &SimulationConfig, i: usize) -> (st: Steering)
    requires
        cfg.valid(),
        agents_wf(agents@, *cfg),
        i < agents@.len(),
    ensures
        st == spec_steering(agents@, *cfg, i as int),
        steering_in_bounds(st),
{
    let n = agents.len();
    let a = agents[i];
    proof {
        assert(agent_wf(agents@[i as int], *cfg));
        lemma_arena_comp_bounds(a.position, *cfg);
        lemma_comp_le_norm(a.velocity.x as int, a.velocity.y as int, cfg.max_speed as int);
    }
    let vx = a.velocity.x;
    let vy = a.velocity.y;
    let v2 = norm2_i128(vx, vy);
    proof {
        assert(v2 <= 0x2000_0000_0000_0000i128) by (nonlinear_arith)
            requires
                v2 == (vx as int) * (vx as int) + (vy as int) * (vy as int),
                -0x4000_0000 <= vx as int <= 0x4000_0000,
                -0x4000_0000 <= vy as int <= 0x4000_0000,
        ;
        lemma_sqrt_floor_props(v2 as int);
    }
    let sv = isqrt_u128(v2 as u128) as i128;
    proof {
        assert(sv < 0x8000_0000i128) by (nonlinear_arith)
            requires
                sv as int >= 0,
                (sv as int) * (sv as int) <= 0x2000_0000_0000_0000,
        ;
    }
    let coh_r2 = mul_i128(cfg.cohesion_radius as i128, cfg.cohesion_radius as i128);
    let ali_r2 = mul_i128(cfg.alignment_radius as i128, cfg.alignment_radius as i128);
    let rep_r2 = mul_i128(cfg.repulsion_radius as i128, cfg.repulsion_radius as i128);
    let mut coh_cnt: i64 = 0;
    let mut coh_sx: i64 = 0;
    let mut coh_sy: i64 = 0;
    let mut ali_cnt: i64 = 0;
    let mut ali_sx: i64 = 0;
    let mut ali_sy: i64 = 0;
    let mut rep_sx: i64 = 0;
    let mut rep_sy: i64 = 0;
    let mut j: usize = 0;
    while j < n
        invariant
            n == agents@.len(),
            n <= POPULATION_MAX,
            cfg.valid(),
            agents_wf(agents@, *cfg),
            i < n,
            j <= n,
            a == agents@[i as int],
            vx == a.velocity.x,
            vy == a.velocity.y,
            -PARAM_MAX <= a.position.x <= PARAM_MAX,
            -PARAM_MAX <= a.position.y <= PARAM_MAX,
            -PARAM_MAX <= vx <= PARAM_MAX,
            -PARAM_MAX <= vy <= PARAM_MAX,
            v2 == a.velocity.norm2(),
            0 <= v2 <= 0x2000_0000_0000_0000i128,
            sv == sqrt_floor(v2 as int),
            0 <= sv < 0x8000_0000i128,
            coh_r2 == sq(cfg.cohesion_radius as int),
            ali_r2 == sq(cfg.alignment_radius as int),
            rep_r2 == sq(cfg.repulsion_radius as int),
            coh_cnt == cohesion_count(agents@, *cfg, i as int, j as int),
            0 <= coh_cnt <= j,
            coh_sx == cohesion_sum_x(agents@, *cfg, i as int, j as int),
            coh_sy == cohesion_sum_y(agents@, *cfg, i as int, j as int),
            abs(coh_sx as int) <= coh_cnt * (PARAM_MAX as int),
            abs(coh_sy as int) <= coh_cnt * (PARAM_MAX as int),
            ali_cnt == alignment_count(agents@, *cfg, i as int, j as int),
            0 <= ali_cnt <= j,
            ali_sx == alignment_sum_x(agents@, *cfg, i as int, j as int),
            ali_sy == alignment_sum_y(agents@, *cfg, i as int, j as int),
            abs(ali_sx as int) <= ali_cnt * (cfg.max_speed as int),
            abs(ali_sy as int) <= ali_cnt * (cfg.max_speed as int),
            rep_sx == repulsion_sum_x(agents@, *cfg, i as int, j as int),
            rep_sy == repulsion_sum_y(agents@, *cfg, i as int, j as int),
            abs(rep_sx as int) <= j * (cfg.repulsion_factor as int),
            abs(rep_sy as int) <= j * (cfg.repulsion_factor as int),
        decreases n - j,
    {
        if j != i {
            let b = agents[j];
            proof {
                assert(agent_wf(agents@[j as int], *cfg));
                lemma_arena_comp_bounds(b.position, *cfg);
                lemma_comp_le_norm(b.velocity.x as int, b.velocity.y as int,
                    cfg.max_speed as int);
            }
            let dx = a.position.x - b.position.x;
            let dy = a.position.y - b.position.y;
            let dd = norm2_i128(dx, dy);
            proof {
                assert(dd == dist_sq(agents@, i as int, j as int));
                assert(dd <= 0x2000_0000_0000_0000i128) by (nonlinear_arith)
                    requires
                        dd == (dx as int) * (dx as int) + (dy as int) * (dy as int),
                        -0x4000_0000 <= dx as int <= 0x4000_0000,
                        -0x4000_0000 <= dy as int <= 0x4000_0000,
                ;
                lemma_sqrt_floor_props(dd as int);
            }
            let sd: i128 = if dd > 0 {
                isqrt_u128(dd as u128) as i128
            } else {
                0
            };
            proof {
                assert(sd == sqrt_floor(dd as int));
                assert(sd < 0x8000_0000i128) by (nonlinear_arith)
                    requires
                        sd as int >= 0,
                        (sd as int) * (sd as int) <= 0x2000_0000_0000_0000,
                ;
            }
            let mut skip = false;
            if dd > 0 && v2 > 0 {
                let px = mul_i128(dx as i128, vx as i128);
                let py = mul_i128(dy as i128, vy as i128);
                proof {
                    assert(-0x1000_0000_0000_0000i128 <= px <= 0x1000_0000_0000_0000i128)
                        by (nonlinear_arith)
                        requires
                            px == (dx as int) * (vx as int),
                            -0x4000_0000 <= dx as int <= 0x4000_0000,
                            -0x4000_0000 <= vx as int <= 0x4000_0000,
                    ;
                    assert(-0x1000_0000_0000_0000i128 <= py <= 0x1000_0000_0000_0000i128)
                        by (nonlinear_arith)
                        requires
                            py == (dy as int) * (vy as int),
                            -0x4000_0000 <= dy as int <= 0x4000_0000,
                            -0x4000_0000 <= vy as int <= 0x4000_0000,
                    ;
                }
                let dot = px + py;
                let lhs = mul_i128(dot, FP_ONE as i128);
                proof {
                    assert(0 <= sd * sv <= 0x4000_0000_0000_0000i128) by (nonlinear_arith)
                        requires
                            0 <= sd < 0x8000_0000i128,
                            0 <= sv < 0x8000_0000i128,
                    ;
                }
                let rhs = mul_i128(cfg.dead_angle_cos as i128, mul_i128(sd, sv));
                skip = lhs > rhs;
            }
            proof {
                assert(skip == skip_neighbor(agents@, *cfg, i as int, j as int));
            }
            if !skip {
                if dd < coh_r2 {
                    proof {
                        assert(coh_cnt * (PARAM_MAX as int) <= 0x4000_0000_0000)
                            by (nonlinear_arith)
                            requires
                                0 <= coh_cnt <= 0x10000,
                        ;
                        assert((coh_cnt + 1) * (PARAM_MAX as int) == coh_cnt * (
                        PARAM_MAX as int) + PARAM_MAX) by (nonlinear_arith);
                    }
                    coh_cnt = coh_cnt + 1;
                    coh_sx = coh_sx + b.position.x;
                    coh_sy = coh_sy + b.position.y;
                }
                if dd < ali_r2 {
                    proof {
                        assert(ali_cnt * (cfg.max_speed as int) <= 0x4000_0000_0000)
                            by (nonlinear_arith)
                            requires
                                0 <= ali_cnt <= 0x10000,
                                0 <= cfg.max_speed as int <= 0x4000_0000,
                        ;
                        assert((ali_cnt + 1) * (cfg.max_speed as int) == ali_cnt * (
                        cfg.max_speed as int) + cfg.max_speed) by (nonlinear_arith);
                    }
                    ali_cnt = ali_cnt + 1;
                    ali_sx = ali_sx + b.velocity.x;
                    ali_sy = ali_sy + b.velocity.y;
                }
                if dd > 0 && dd < rep_r2 {
                    proof {
                        assert(sd >= 1) by (nonlinear_arith)
                            requires
                                sd as int >= 0,
                                (dd as int) < (sd as int + 1) * (sd as int + 1),
                                dd >= 1,
                        ;
                        assert(-0x1000_0000_0000_0000i128 <= (dx as i128) * (
                        cfg.repulsion_factor as i128) <= 0x1000_0000_0000_0000i128)
                            by (nonlinear_arith)
                            requires
                                -0x4000_0000 <= dx as int <= 0x4000_0000,
                                0 <= cfg.repulsion_factor as int <= 0x4000_0000,
                        ;
                        assert(-0x1000_0000_0000_0000i128 <= (dy as i128) * (
                        cfg.repulsion_factor as i128) <= 0x1000_0000_0000_0000i128)
                            by (nonlinear_arith)
                            requires
                                -0x4000_0000 <= dy as int <= 0x4000_0000,
                                0 <= cfg.repulsion_factor as int <= 0x4000_0000,
                        ;
                    }
                    let tx = div_trunc_i128(
                        mul_i128(dx as i128, cfg.repulsion_factor as i128),
                        sd,
                    );
                    let ty = div_trunc_i128(
                        mul_i128(dy as i128, cfg.repulsion_factor as i128),
                        sd,
                    );
                    proof {
                        lemma_div_trunc_facts((dx as int) * (cfg.repulsion_factor as int),
                            sd as int);
                        lemma_div_trunc_facts((dy as int) * (cfg.repulsion_factor as int),
                            sd as int);
                        // the offset components are bounded by the distance
                        assert(-sd <= dx as i128 <= sd && -sd <= dy as i128 <= sd)
                            by (nonlinear_arith)
                            requires
                                (dx as int) * (dx as int) + (dy as int) * (dy as int)
                                    == dd as int,
                                (dd as int) < (sd as int + 1) * (sd as int + 1),
                                sd >= 0,
                        ;
                        assert(abs((dx as int) * (cfg.repulsion_factor as int)) <= (sd as int)
                            * (cfg.repulsion_factor as int)) by (nonlinear_arith)
                            requires
                                -sd as int <= dx as int <= sd as int,
                                0 <= cfg.repulsion_factor as int,
                        ;
                        assert(abs((dy as int) * (cfg.repulsion_factor as int)) <= (sd as int)
                            * (cfg.repulsion_factor as int)) by (nonlinear_arith)
                            requires
                                -sd as int <= dy as int <= sd as int,
                                0 <= cfg.repulsion_factor as int,
                        ;
                        assert(abs(tx as int) <= cfg.repulsion_factor as int)
                            by (nonlinear_arith)
                            requires
                                abs(tx as int) * (sd as int) <= (sd as int) * (
                                cfg.repulsion_factor as int),
                                sd as int >= 1,
                                abs(tx as int) >= 0,
                        ;
                        assert(abs(ty as int) <= cfg.repulsion_factor as int)
                            by (nonlinear_arith)
                            requires
                                abs(ty as int) * (sd as int) <= (sd as int) * (
                                cfg.repulsion_factor as int),
                                sd as int >= 1,
                                abs(ty as int) >= 0,
                        ;
                        assert(j * (cfg.repulsion_factor as int) <= 0x4000_0000_0000
                            && (j + 1) * (cfg.repulsion_factor as int) == j * (
                        cfg.repulsion_factor as int) + cfg.repulsion_factor)
                            by (nonlinear_arith)
                            requires
                                0 <= j <= 0x10000,
                                0 <= cfg.repulsion_factor as int <= 0x4000_0000,
                        ;
                    }
                    rep_sx = rep_sx + (tx as i64);
                    rep_sy = rep_sy + (ty as i64);
                } else {
                    proof {
                        assert(j * (cfg.repulsion_factor as int) <= (j + 1) * (
                        cfg.repulsion_factor as int)) by (nonlinear_arith)
                            requires
                                0 <= j,
                                0 <= cfg.repulsion_factor as int,
                        ;
                    }
                }
            } else {
                proof {
                    assert(j * (cfg.repulsion_factor as int) <= (j + 1) * (
                    cfg.repulsion_factor as int)) by (nonlinear_arith)
                        requires
                            0 <= j,
                            0 <= cfg.repulsion_factor as int,
                    ;
                }
            }
        } else {
            proof {
                assert(j * (cfg.repulsion_factor as int) <= (j + 1) * (
                cfg.repulsion_factor as int)) by (nonlinear_arith)
                    requires
                        0 <= j,
                        0 <= cfg.repulsion_factor as int,
                ;
            }
        }
        j = j + 1;
    }
    let coh_x: i64;
    let coh_y: i64;
    if coh_cnt > 0 && cfg.cohesion_radius > 0 {
        let qx = div_trunc_i128(coh_sx as i128, coh_cnt as i128);
        let qy = div_trunc_i128(coh_sy as i128, coh_cnt as i128);
        proof {
            lemma_div_trunc_facts(coh_sx as int, coh_cnt as int);
            lemma_div_trunc_facts(coh_sy as int, coh_cnt as int);
            assert(abs(qx as int) <= PARAM_MAX && abs(qy as int) <= PARAM_MAX)
                by (nonlinear_arith)
                requires
                    abs(qx as int) * (coh_cnt as int) <= (coh_cnt as int) * (PARAM_MAX as int),
                    abs(qy as int) * (coh_cnt as int) <= (coh_cnt as int) * (PARAM_MAX as int),
                    coh_cnt as int >= 1,
                    abs(qx as int) >= 0,
                    abs(qy as int) >= 0,
            ;
        }
        let cx = qx - (a.position.x as i128);
        let cy = qy - (a.position.y as i128);
        let mx = mul_i128(cx, cfg.cohesion_factor as i128);
        let my = mul_i128(cy, cfg.cohesion_factor as i128);
        proof {
            assert(abs(mx as int) <= 0x2000_0000_0000_0000 && abs(my as int)
                <= 0x2000_0000_0000_0000) by (nonlinear_arith)
                requires
                    mx == cx * (cfg.cohesion_factor as int),
                    my == cy * (cfg.cohesion_factor as int),
                    -0x8000_0000 <= cx <= 0x8000_0000,
                    -0x8000_0000 <= cy <= 0x8000_0000,
                    0 <= cfg.cohesion_factor as int <= 0x4000_0000,
            ;
        }
        let rx = div_trunc_i128(mx, cfg.cohesion_radius as i128);
        let ry = div_trunc_i128(my, cfg.cohesion_radius as i128);
        proof {
            lemma_div_trunc_facts(mx as int, cfg.cohesion_radius as int);
            lemma_div_trunc_facts(my as int, cfg.cohesion_radius as int);
            assert(abs(rx as int) <= 0x2000_0000_0000_0000 && abs(ry as int)
                <= 0x2000_0000_0000_0000) by (nonlinear_arith)
                requires
                    abs(rx as int) * (cfg.cohesion_radius as int) <= abs(mx as int),
                    abs(ry as int) * (cfg.cohesion_radius as int) <= abs(my as int),
                    abs(mx as int) <= 0x2000_0000_0000_0000,
                    abs(my as int) <= 0x2000_0000_0000_0000,
                    cfg.cohesion_radius as int >= 1,
                    abs(rx as int) >= 0,
                    abs(ry as int) >= 0,
            ;
        }
        coh_x = rx as i64;
        coh_y = ry as i64;
    } else {
        coh_x = 0;
        coh_y = 0;
    }
    let ali_x: i64;
    let ali_y: i64;
    if ali_cnt > 0 && cfg.max_speed > 0 {
        let qx = div_trunc_i128(ali_sx as i128, ali_cnt as i128);
        let qy = div_trunc_i128(ali_sy as i128, ali_cnt as i128);
        proof {
            lemma_div_trunc_facts(ali_sx as int, ali_cnt as int);
            lemma_div_trunc_facts(ali_sy as int, ali_cnt as int);
            assert(abs(qx as int) <= cfg.max_speed as int && abs(qy as int)
                <= cfg.max_speed as int) by (nonlinear_arith)
                requires
                    abs(qx as int) * (ali_cnt as int) <= (ali_cnt as int) * (
                    cfg.max_speed as int),
                    abs(qy as int) * (ali_cnt as int) <= (ali_cnt as int) * (
                    cfg.max_speed as int),
                    ali_cnt as int >= 1,
                    abs(qx as int) >= 0,
                    abs(qy as int) >= 0,
            ;
        }
        let ax = qx - (vx as i128);
        let ay = qy - (vy as i128);
        let mx = mul_i128(ax, cfg.alignment_factor as i128);
        let my = mul_i128(ay, cfg.alignment_factor as i128);
        proof {
            assert(abs(mx as int) <= (2 * (cfg.max_speed as int)) * (
            cfg.alignment_factor as int) && abs(my as int) <= (2 * (cfg.max_speed as int))
                * (cfg.alignment_factor as int)) by (nonlinear_arith)
                requires
                    mx == ax * (cfg.alignment_factor as int),
                    my == ay * (cfg.alignment_factor as int),
                    -2 * (cfg.max_speed as int) <= ax <= 2 * (cfg.max_speed as int),
                    -2 * (cfg.max_speed as int) <= ay <= 2 * (cfg.max_speed as int),
                    0 <= cfg.alignment_factor as int,
            ;
            assert((2 * (cfg.max_speed as int)) * (cfg.alignment_factor as int)
                <= 0x2000_0000_0000_0000) by (nonlinear_arith)
                requires
                    0 <= cfg.max_speed as int <= 0x4000_0000,
                    0 <= cfg.alignment_factor as int <= 0x4000_0000,
            ;
        }
        let rx = div_trunc_i128(mx, 2 * (cfg.max_speed as i128));
        let ry = div_trunc_i128(my, 2 * (cfg.max_speed as i128));
        proof {
            lemma_div_trunc_facts(mx as int, 2 * (cfg.max_speed as int));
            lemma_div_trunc_facts(my as int, 2 * (cfg.max_speed as int));
            assert(abs(rx as int) <= cfg.alignment_factor as int && abs(ry as int)
                <= cfg.alignment_factor as int) by (nonlinear_arith)
                requires
                    abs(rx as int) * (2 * (cfg.max_speed as int)) <= abs(mx as int),
                    abs(ry as int) * (2 * (cfg.max_speed as int)) <= abs(my as int),
                    abs(mx as int) <= (2 * (cfg.max_speed as int)) * (
                    cfg.alignment_factor as int),
                    abs(my as int) <= (2 * (cfg.max_speed as int)) * (
                    cfg.alignment_factor as int),
                    cfg.max_speed as int >= 1,
                    abs(rx as int) >= 0,
                    abs(ry as int) >= 0,
            ;
        }
        ali_x = rx as i64;
        ali_y = ry as i64;
    } else {
        ali_x = 0;
        ali_y = 0;
    }
    proof {
        assert(abs(rep_sx as int) <= REPULSION_MAX && abs(rep_sy as int) <= REPULSION_MAX)
            by (nonlinear_arith)
            requires
                abs(rep_sx as int) <= (n as int) * (cfg.repulsion_factor as int),
                abs(rep_sy as int) <= (n as int) * (cfg.repulsion_factor as int),
                0 <= n <= 0x10000,
                0 <= cfg.repulsion_factor as int <= 0x4000_0000,
                abs(rep_sx as int) >= 0,
                abs(rep_sy as int) >= 0,
        ;
    }
    Steering {
        alignment: Vec2 { x: ali_x, y: ali_y },
        cohesion: Vec2 { x: coh_x, y: coh_y },
        repulsion: Vec2 { x: rep_sx, y: rep_sy },
    }
}

/// The neighbor-interaction pass, run over the whole store: every agent's
/// steering triple is recomputed from the same snapshot; positions,
/// velocities and accelerations are untouched.
pub struct BoidSystem;

impl BoidSystem {
    pub fn run(store: &mut AgentStore, cfg: &SimulationConfig)
        requires
            cfg.valid(),
            agents_wf(old(store)@, *cfg),
        ensures
            final(store)@.len() == old(store)@.len(),
            forall|k: int|
                0 <= k < old(store)@.len() ==> #[trigger] final(store)@[k] == (Agent {
                    steering: spec_steering(old(store)@, *cfg, k),
                    ..old(store)@[k]
                }),
            agents_wf(final(store)@, *cfg),
            forall|k: int|
                0 <= k < old(store)@.len() ==> steering_in_bounds(
                    #[trigger] final(store)@[k].steering),
    {
        let n = store.agents.len();
        let mut out: Vec<Agent> = Vec::new();
        let mut k: usize = 0;
        while k < n
            invariant
                n == old(store)@.len(),
                cfg.valid(),
                agents_wf(old(store)@, *cfg),
                store@ == old(store)@,
                k <= n,
                out@.len() == k,
                forall|t: int|
                    0 <= t < k ==> #[trigger] out@[t] == (Agent {
                        steering: spec_steering(old(store)@, *cfg, t),
                        ..old(store)@[t]
                    }),
                forall|t: int|
                    0 <= t < k ==> steering_in_bounds(#[trigger] out@[t].steering),
            decreases n - k,
        {
            let a = store.agents[k];
            let st = steering_for(&store.agents, cfg, k);
            out.push(
                Agent {
                    position: a.position,
                    velocity: a.velocity,
                    acceleration: a.acceleration,
                    steering: st,
                },
            );
            k = k + 1;
        }
        store.agents = out;
        proof {
            assert forall|t: int| 0 <= t < final(store)@.len() implies agent_wf(
                #[trigger] final(store)@[t], *cfg) by {
                assert(agent_wf(old(store)@[t], *cfg));
            }
        }
    }
}

} // verus!

