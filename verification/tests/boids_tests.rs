use boidsim::agent::{Agent, AgentStore, Steering};
use boidsim::config::{ConfigError, SimulationConfig};
use boidsim::fxp::FP_ONE;
use boidsim::sim::{initialize, restart, tick};
use boidsim::steer::steering_for;
use boidsim::vec2::Vec2;

fn world(u: i64) -> i64 {
    u * FP_ONE
}

fn base_config(population: usize) -> SimulationConfig {
    SimulationConfig {
        population,
        cohesion_radius: world(200),
        cohesion_factor: world(500),
        alignment_radius: world(100),
        alignment_factor: world(200),
        repulsion_radius: world(20),
        repulsion_factor: world(1000),
        min_speed: world(100),
        max_speed: world(150),
        max_acceleration: world(500000),
        dead_angle_cos: 943, // cos of about 0.4 radians
        width: world(800),
        height: world(600),
    }
}

const DT: i64 = 17; // about one sixtieth of a second

#[test]
fn config_rejects_negative_parameter() {
    let mut cfg = base_config(10);
    cfg.repulsion_factor = -1;
    assert_eq!(cfg.validate(), Err(ConfigError::NegativeParameter));
    assert!(initialize(&cfg, 1).is_err());
}

#[test]
fn config_rejects_oversized_parameter() {
    let mut cfg = base_config(10);
    cfg.cohesion_radius = 0x4000_0001;
    assert_eq!(cfg.validate(), Err(ConfigError::ParameterTooLarge));
}

#[test]
fn config_rejects_inverted_speed_bounds() {
    let mut cfg = base_config(10);
    cfg.min_speed = cfg.max_speed + 1;
    assert_eq!(cfg.validate(), Err(ConfigError::SpeedBoundsInverted));
}

#[test]
fn config_rejects_non_positive_arena() {
    let mut cfg = base_config(10);
    cfg.height = 0;
    assert_eq!(cfg.validate(), Err(ConfigError::NonPositiveArena));
}

#[test]
fn config_rejects_dead_angle_cos_out_of_range() {
    let mut cfg = base_config(10);
    cfg.dead_angle_cos = FP_ONE + 1;
    assert_eq!(cfg.validate(), Err(ConfigError::DeadAngleCosOutOfRange));
}

#[test]
fn config_rejects_excess_population() {
    let mut cfg = base_config(65537);
    assert_eq!(cfg.validate(), Err(ConfigError::PopulationTooLarge));
    cfg.population = 65536;
    assert_eq!(cfg.validate(), Ok(()));
}

#[test]
fn config_accepts_defaults() {
    assert_eq!(base_config(2000).validate(), Ok(()));
}

#[test]
fn tick_with_zero_agents_is_a_noop() {
    let cfg = base_config(0);
    let mut store = initialize(&cfg, 9).unwrap();
    assert_eq!(store.len(), 0);
    tick(&mut store, &cfg, DT);
    assert_eq!(store.len(), 0);
    assert_eq!(store.positions_velocities().len(), 0);
}

#[test]
fn single_agent_moves_ballistically() {
    let cfg = base_config(1);
    let mut store = initialize(&cfg, 3).unwrap();
    let before = store.agent(0);
    tick(&mut store, &cfg, DT);
    let after = store.agent(0);
    // no neighbors: zero steering triple, zero net force
    assert_eq!(after.steering.alignment, Vec2 { x: 0, y: 0 });
    assert_eq!(after.steering.cohesion, Vec2 { x: 0, y: 0 });
    assert_eq!(after.steering.repulsion, Vec2 { x: 0, y: 0 });
    assert_eq!(after.acceleration, Vec2 { x: 0, y: 0 });
    // straight-line motion: the position advances by velocity * dt, wrapped
    let expect_x = (before.position.x + after.velocity.x * DT / FP_ONE + cfg.width / 2)
        .rem_euclid(cfg.width)
        - cfg.width / 2;
    let expect_y = (before.position.y + after.velocity.y * DT / FP_ONE + cfg.height / 2)
        .rem_euclid(cfg.height)
        - cfg.height / 2;
    assert_eq!(after.position, Vec2 { x: expect_x, y: expect_y });
}

fn resting_agent(x: i64, y: i64, vx: i64, vy: i64) -> Agent {
    Agent {
        position: Vec2 { x, y },
        velocity: Vec2 { x: vx, y: vy },
        acceleration: Vec2 { x: 0, y: 0 },
        steering: Steering {
            alignment: Vec2 { x: 0, y: 0 },
            cohesion: Vec2 { x: 0, y: 0 },
            repulsion: Vec2 { x: 0, y: 0 },
        },
    }
}

#[test]
fn coincident_pair_has_zero_repulsion() {
    let mut cfg = base_config(2);
    cfg.dead_angle_cos = FP_ONE; // no dead angle
    let agents = vec![
        resting_agent(world(5), world(5), world(100), 0),
        resting_agent(world(5), world(5), 0, world(100)),
    ];
    let st0 = steering_for(&agents, &cfg, 0);
    let st1 = steering_for(&agents, &cfg, 1);
    assert_eq!(st0.repulsion, Vec2 { x: 0, y: 0 });
    assert_eq!(st1.repulsion, Vec2 { x: 0, y: 0 });
    // a full tick over the coincident pair also stays well-defined
    let mut store = AgentStore::from_agents(agents);
    tick(&mut store, &cfg, DT);
    assert_eq!(store.agent(0).steering.repulsion, Vec2 { x: 0, y: 0 });
}

#[test]
fn fixed_seed_runs_are_identical() {
    let cfg = base_config(40);
    let dts = [17i64, 33, 8, 17, 1, 0, 25, 17];
    let mut a = initialize(&cfg, 12345).unwrap();
    let mut b = initialize(&cfg, 12345).unwrap();
    assert_eq!(a.positions_velocities(), b.positions_velocities());
    for dt in dts {
        tick(&mut a, &cfg, dt);
        tick(&mut b, &cfg, dt);
    }
    assert_eq!(a.positions_velocities(), b.positions_velocities());
}

#[test]
fn cohesion_pulls_toward_neighbor() {
    // two agents 10 world units apart, well inside the cohesion radius
    let cfg = SimulationConfig {
        population: 2,
        cohesion_radius: world(50),
        cohesion_factor: world(25),
        alignment_radius: 0,
        alignment_factor: 0,
        repulsion_radius: 0,
        repulsion_factor: 0,
        min_speed: world(100),
        max_speed: world(200),
        max_acceleration: world(500000),
        dead_angle_cos: FP_ONE,
        width: world(800),
        height: world(600),
    };
    let agents = vec![
        resting_agent(0, 0, world(100), 0),
        resting_agent(world(10), 0, world(100), 0),
    ];
    let mut store = AgentStore::from_agents(agents);
    tick(&mut store, &cfg, DT);
    let a0 = store.agent(0);
    // the cohesion steering points toward the neighbor at (10, 0), scaled
    // by cohesion_factor / cohesion_radius: 10240 * 25 / 50 = 5120
    assert!(a0.steering.cohesion.x > 0);
    assert_eq!(a0.steering.cohesion, Vec2 { x: 5120, y: 0 });
    // and the neighbor is pulled back symmetrically
    assert_eq!(store.agent(1).steering.cohesion, Vec2 { x: -5120, y: 0 });
    // the pull shows up in the integrated motion
    assert_eq!(a0.acceleration, Vec2 { x: 5120, y: 0 });
    assert_eq!(a0.velocity, Vec2 { x: 102485, y: 0 });
    assert_eq!(a0.position, Vec2 { x: 1701, y: 0 });
}

#[test]
fn alignment_and_repulsion_match_their_formulas() {
    let cfg = SimulationConfig {
        population: 2,
        cohesion_radius: 0,
        cohesion_factor: 0,
        alignment_radius: world(50),
        alignment_factor: world(20),
        repulsion_radius: world(10),
        repulsion_factor: world(1000),
        min_speed: 0,
        max_speed: world(200),
        dead_angle_cos: FP_ONE,
        max_acceleration: world(500000),
        width: world(800),
        height: world(600),
    };
    // neighbor at (3, 4): distance exactly 5 world units
    let agents = vec![
        resting_agent(0, 0, world(100), 0),
        resting_agent(3 * FP_ONE, 4 * FP_ONE, 0, world(100)),
    ];
    let st = steering_for(&agents, &cfg, 0);
    // alignment: (avg_velocity - velocity) * factor / (2 * max_speed)
    // = (-102400, 102400) * 20480 / 409600 = (-5120, 5120)
    assert_eq!(st.alignment, Vec2 { x: -5120, y: 5120 });
    // repulsion: the unit vector away from the neighbor times the factor
    // = (-3072, -4096) * 1024000 / 5120 = (-614400, -819200)
    assert_eq!(st.repulsion, Vec2 { x: -614400, y: -819200 });
    assert_eq!(st.cohesion, Vec2 { x: 0, y: 0 });
}

#[test]
fn dead_angle_excludes_neighbors_along_the_offset() {
    let mut cfg = base_config(2);
    cfg.cohesion_radius = world(50);
    cfg.cohesion_factor = world(25);
    cfg.alignment_radius = 0;
    cfg.repulsion_radius = 0;
    cfg.dead_angle_cos = 0; // a dead angle of a quarter turn
    // the offset from the neighbor to the agent is along the agent's
    // velocity: the pair test skips the neighbor entirely
    let behind = vec![
        resting_agent(0, 0, world(100), 0),
        resting_agent(-world(10), 0, 0, world(100)),
    ];
    assert_eq!(steering_for(&behind, &cfg, 0).cohesion, Vec2 { x: 0, y: 0 });
    // the offset against the agent's velocity is kept
    let ahead = vec![
        resting_agent(0, 0, world(100), 0),
        resting_agent(world(10), 0, 0, world(100)),
    ];
    assert_eq!(steering_for(&ahead, &cfg, 0).cohesion, Vec2 { x: 5120, y: 0 });
}

#[test]
fn repulsion_disperses_population() {
    // repulsion only: after many ticks no two agents remain close
    let cfg = SimulationConfig {
        population: 100,
        cohesion_radius: 0,
        cohesion_factor: 0,
        alignment_radius: 0,
        alignment_factor: 0,
        repulsion_radius: world(20),
        repulsion_factor: world(1000),
        min_speed: 0,
        max_speed: world(200),
        max_acceleration: world(500000),
        dead_angle_cos: FP_ONE,
        width: world(800),
        height: world(600),
    };
    let mut store = initialize(&cfg, 42).unwrap();
    for _ in 0..1000 {
        tick(&mut store, &cfg, DT);
    }
    let pv = store.positions_velocities();
    let min_sep = world(2);
    for i in 0..pv.len() {
        for j in (i + 1)..pv.len() {
            let dx = pv[i].0.x - pv[j].0.x;
            let dy = pv[i].0.y - pv[j].0.y;
            assert!(dx * dx + dy * dy >= min_sep * min_sep);
        }
    }
}

#[test]
fn run_invariants_hold_after_every_tick() {
    let cfg = base_config(30);
    let mut store = initialize(&cfg, 8).unwrap();
    for step in 0..50 {
        tick(&mut store, &cfg, if step % 2 == 0 { DT } else { 33 });
        let pv = store.positions_velocities();
        for k in 0..pv.len() {
            let (p, v) = pv[k];
            // position inside the arena
            assert!(-(cfg.width / 2) <= p.x && p.x < cfg.width - cfg.width / 2);
            assert!(-(cfg.height / 2) <= p.y && p.y < cfg.height - cfg.height / 2);
            // speed within the band, up to the documented slack below
            let v2 = v.x * v.x + v.y * v.y;
            assert!(v2 <= cfg.max_speed * cfg.max_speed);
            let lo = cfg.min_speed - 8;
            assert!(v2 >= lo * lo);
            // acceleration within the clamp
            let a = store.agent(k).acceleration;
            assert!(a.x * a.x + a.y * a.y <= cfg.max_acceleration * cfg.max_acceleration);
        }
    }
}

#[test]
fn restart_reseeds_the_population() {
    let cfg = base_config(25);
    let mut store = initialize(&cfg, 5).unwrap();
    for _ in 0..5 {
        tick(&mut store, &cfg, DT);
    }
    restart(&mut store, &cfg, 77).unwrap();
    let fresh = initialize(&cfg, 77).unwrap();
    assert_eq!(store.positions_velocities(), fresh.positions_velocities());
    // an invalid configuration aborts the restart and keeps the state
    let before = store.positions_velocities();
    let mut bad = cfg;
    bad.width = -3;
    assert!(restart(&mut store, &bad, 1).is_err());
    assert_eq!(store.positions_velocities(), before);
}

#[test]
fn initial_population_is_inside_the_arena() {
    let cfg = base_config(200);
    let store = initialize(&cfg, 31).unwrap();
    let pv = store.positions_velocities();
    assert_eq!(pv.len(), 200);
    for (p, v) in pv {
        assert!(-(cfg.width / 2) <= p.x && p.x < cfg.width - cfg.width / 2);
        assert!(-(cfg.height / 2) <= p.y && p.y < cfg.height - cfg.height / 2);
        let v2 = v.x * v.x + v.y * v.y;
        assert!(v2 <= cfg.max_speed * cfg.max_speed);
    }
}
