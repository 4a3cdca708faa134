use boidsim::coord::Coord;
use boidsim::fxp::{isqrt_u128, mod_euclid_i64, wrap_i64, FP_ONE};
use boidsim::hexmap::{HexMap, MapShape};
use boidsim::rng::SimRng;
use boidsim::sched::{SimPhase, TickScheduler};
use boidsim::config::SimulationConfig;
use boidsim::vec2::{clamp_mag_down_vec, clamp_speed_vec, Vec2};
use boidsim::viewer::App;

#[test]
fn hexagon_map_lists_every_cell_once() {
    let map = HexMap::new(MapShape::Hexagon { radius: 2 }, |c: Coord| {
        c.x() * 100 + c.y()
    });
    // rows of 3, 4, 5, 4, 3 cells
    assert_eq!(map.ground.len(), 19);
    assert_eq!(map.ground[0].0, Coord::new(-2, 0, 2).unwrap());
    assert_eq!(map.ground[3].0, Coord::new(-1, -1, 2).unwrap());
    assert_eq!(map.ground[18].0, Coord::new(2, 0, -2).unwrap());
    for i in 0..map.ground.len() {
        let (c, v) = map.ground[i];
        assert_eq!(v, c.x() * 100 + c.y());
        for j in (i + 1)..map.ground.len() {
            assert_ne!(c, map.ground[j].0);
        }
    }
}

#[test]
fn parallelogram_map_lists_every_cell_once() {
    let map = HexMap::new(
        MapShape::Parallelogram { q: 1, r: 1, direction: 0 },
        |c: Coord| c.z(),
    );
    assert_eq!(map.ground.len(), 4);
    assert_eq!(map.ground[0].0, Coord::new(-1, -1, 2).unwrap());
    assert_eq!(map.ground[1].0, Coord::new(-1, 0, 1).unwrap());
    assert_eq!(map.ground[2].0, Coord::new(0, -1, 1).unwrap());
    assert_eq!(map.ground[3].0, Coord::new(0, 0, 0).unwrap());
    let swapped = HexMap::new(
        MapShape::Parallelogram { q: 1, r: 1, direction: 1 },
        |c: Coord| c.z(),
    );
    assert_eq!(swapped.ground[1].0, Coord::new(-1, 1, 0).unwrap());
}

#[test]
fn reserved_shapes_generate_nothing() {
    let t = HexMap::new(MapShape::Triangle { size: 4, pointy: true }, |c: Coord| c.x());
    assert_eq!(t.ground.len(), 0);
    let r = HexMap::new(MapShape::Rectangle, |c: Coord| c.x());
    assert_eq!(r.ground.len(), 0);
}

#[test]
fn viewer_spins_two_radians_per_second() {
    let map = HexMap::new(MapShape::Hexagon { radius: 1 }, |c: Coord| c.x());
    let mut app = App::new(map);
    assert_eq!(app.rotation, 0);
    app.update(FP_ONE); // one second
    assert_eq!(app.rotation, 2 * FP_ONE);
    app.update(17);
    assert_eq!(app.rotation, 2 * FP_ONE + 34);
    assert_eq!(app.map.ground.len(), 7);
}

#[test]
fn generator_is_deterministic_and_bounded() {
    let mut a = SimRng::new(99);
    let mut b = SimRng::new(99);
    for _ in 0..100 {
        assert_eq!(a.next_u64(), b.next_u64());
    }
    let mut c = SimRng::new(7);
    for _ in 0..1000 {
        let v = c.below(13);
        assert!(v < 13);
    }
    // distinct seeds give distinct streams
    assert_ne!(SimRng::new(0).next_u64(), SimRng::new(1).next_u64());
}

#[test]
fn integer_square_root_is_exact() {
    assert_eq!(isqrt_u128(0), 0);
    assert_eq!(isqrt_u128(1), 1);
    assert_eq!(isqrt_u128(15), 3);
    assert_eq!(isqrt_u128(16), 4);
    assert_eq!(isqrt_u128(1_000_000), 1000);
    assert_eq!(isqrt_u128((1u128 << 62) - 1), (1u64 << 31) - 1);
}

#[test]
fn wrapping_is_a_true_remainder() {
    assert_eq!(mod_euclid_i64(-7, 3), 2);
    assert_eq!(mod_euclid_i64(7, 3), 1);
    assert_eq!(wrap_i64(900, 800), 100);
    assert_eq!(wrap_i64(-900, 800), -100);
    assert_eq!(wrap_i64(400, 800), -400);
    assert_eq!(wrap_i64(399, 800), 399);
    // displacements beyond one arena width still land inside
    assert_eq!(wrap_i64(10000, 100), 0);
    assert_eq!(wrap_i64(-12345, 100), -45);
}

#[test]
fn magnitude_clamps_are_exact() {
    // 3-4-5 triangle scaled down to magnitude 1000
    let r = clamp_mag_down_vec(Vec2 { x: 3000, y: 4000 }, 1000);
    assert_eq!(r, Vec2 { x: 600, y: 800 });
    // already inside the bound: unchanged
    let r = clamp_mag_down_vec(Vec2 { x: 300, y: 400 }, 1000);
    assert_eq!(r, Vec2 { x: 300, y: 400 });
    // scaled up to the minimum
    let r = clamp_speed_vec(Vec2 { x: 30, y: 40 }, 1000, 2000);
    assert_eq!(r, Vec2 { x: 600, y: 800 });
    // a zero vector takes the fallback direction at minimum speed
    let r = clamp_speed_vec(Vec2 { x: 0, y: 0 }, 1000, 2000);
    assert_eq!(r, Vec2 { x: 1000, y: 0 });
    // within the band: untouched
    let r = clamp_speed_vec(Vec2 { x: 900, y: 1200 }, 1000, 2000);
    assert_eq!(r, Vec2 { x: 900, y: 1200 });
}

fn small_config() -> SimulationConfig {
    SimulationConfig {
        population: 6,
        cohesion_radius: 200 * FP_ONE,
        cohesion_factor: 500 * FP_ONE,
        alignment_radius: 100 * FP_ONE,
        alignment_factor: 200 * FP_ONE,
        repulsion_radius: 20 * FP_ONE,
        repulsion_factor: 1000 * FP_ONE,
        min_speed: 100 * FP_ONE,
        max_speed: 150 * FP_ONE,
        max_acceleration: 500000 * FP_ONE,
        dead_angle_cos: 943,
        width: 800 * FP_ONE,
        height: 600 * FP_ONE,
    }
}

#[test]
fn scheduler_gates_ticks_by_phase() {
    let mut sched = TickScheduler::new();
    assert_eq!(sched.phase, SimPhase::Uninitialized);
    // resume and step do nothing before a run exists
    sched.resume();
    assert_eq!(sched.phase, SimPhase::Uninitialized);
    sched.step(17);
    assert_eq!(sched.store.len(), 0);

    let cfg = small_config();
    sched.initialize(&cfg, 4).unwrap();
    assert_eq!(sched.phase, SimPhase::Ready);
    let ready_state = sched.store.positions_velocities();

    // Ready accepts no ticks
    sched.step(17);
    assert_eq!(sched.store.positions_velocities(), ready_state);

    // Running does
    sched.resume();
    assert_eq!(sched.phase, SimPhase::Running);
    sched.step(17);
    let moved = sched.store.positions_velocities();
    assert_ne!(moved, ready_state);

    // Paused drops time-step requests
    sched.pause();
    assert_eq!(sched.phase, SimPhase::Paused);
    sched.step(17);
    assert_eq!(sched.store.positions_velocities(), moved);

    // and Running resumes from the paused state
    sched.resume();
    assert_eq!(sched.phase, SimPhase::Running);
    sched.step(17);
    assert_ne!(sched.store.positions_velocities(), moved);

    // restart returns to Ready with a freshly seeded population
    sched.restart(4);
    assert_eq!(sched.phase, SimPhase::Ready);
    assert_eq!(sched.store.positions_velocities(), ready_state);

    // an invalid configuration is rejected and changes nothing
    let mut bad = cfg;
    bad.min_speed = bad.max_speed + 1;
    assert!(sched.initialize(&bad, 4).is_err());
    assert_eq!(sched.phase, SimPhase::Ready);
}
