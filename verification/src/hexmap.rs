//! Generated maps over the hexagonal lattice: a shape description turns
//! into the list of its coordinates, each paired with a generated value.
//!
//! The ground is a vector of `(coordinate, value)` pairs in generation
//! order; the contract of `HexMap::new` pins the exact coordinate at every
//! index, so the keys are determined (and in particular distinct) for the
//! shapes that generate anything.

use vstd::prelude::*;
use crate::coord::{BaseCoord, Coord};
use vstd::arithmetic::div_mod::{
    lemma_fundamental_div_mod_converse_div, lemma_fundamental_div_mod_converse_mod,
};

verus! {

/// The shape of a generated map.
#[derive(Clone, Copy, Debug, PartialEq, Eq, Structural)]
pub enum MapShape {
    /// A `2q` by `2r` rhombus of cells, laid out along one of three axis
    /// pairs chosen by `direction`.
    Parallelogram { q: usize, r: usize, direction: usize },
    /// Reserved; generates no cells.
    Triangle { size: usize, pointy: bool },
    /// A hexagon of the given radius around the origin.
    Hexagon { radius: i32 },
    /// Reserved; generates no cells.
    Rectangle,
}

/// The cell of a parallelogram map at lattice offsets `(qv, rv)`, laid
/// out by `direction`.
pub open spec fn para_cell(d: int, qv: int, rv: int) -> Coord {
    if d == 0 {
        BaseCoord(qv as i32, rv as i32, (-qv - rv) as i32)
    } else if d == 1 {
        BaseCoord(qv as i32, (-qv - rv) as i32, rv as i32)
    } else {
        BaseCoord((-qv - rv) as i32, qv as i32, rv as i32)
    }
}

/// The `t`-th cell of a parallelogram map with extents `q0`, `r0`: rows
/// of length `2 * r0` in row-major order, offsets from `-q0` and `-r0`.
pub open spec fn para_coord(q0: int, r0: int, d: int, t: int) -> Coord {
    para_cell(d, t / (2 * r0) - q0, t % (2 * r0) - r0)
}

/// First lattice row coordinate of the hexagon row at `q`.
pub open spec fn hex_row_start(radius: int, q: int) -> int {
    vstd::math::max(-radius, -q - radius)
}

/// Number of cells of the hexagon row at `q`.
pub open spec fn hex_row_len(radius: int, q: int) -> int {
    vstd::math::min(radius, -q + radius) - hex_row_start(radius, q) + 1
}

/// The hexagon cell at lattice coordinates `(q, r)`.
pub open spec fn hex_cell(q: int, r: int) -> Coord {
    BaseCoord(q as i32, r as i32, (-q - r) as i32)
}

/// The first `k` cells of the hexagon row at `q`.
pub open spec fn hex_row(radius: int, q: int, k: int) -> Seq<Coord>
    decreases k,
{
    if k <= 0 {
        Seq::empty()
    } else {
        hex_row(radius, q, k - 1).push(hex_cell(q, hex_row_start(radius, q) + k - 1))
    }
}

/// The first `k` full rows of a hexagon map, rows indexed from `q = -radius`.
pub open spec fn hex_rows(radius: int, k: int) -> Seq<Coord>
    decreases k,
{
    if k <= 0 {
        Seq::empty()
    } else {
        hex_rows(radius, k - 1) + hex_row(
            radius,
            k - 1 - radius,
            hex_row_len(radius, k - 1 - radius),
        )
    }
}

/// All cells of a hexagon map of the given radius.
pub open spec fn hex_coords(radius: int) -> Seq<Coord> {
    if radius < 0 {
        Seq::empty()
    } else {
        hex_rows(radius, 2 * radius + 1)
    }
}

/// The coordinates a shape generates, in generation order.
pub open spec fn shape_coords(shape: MapShape) -> Seq<Coord> {
    match shape {
        MapShape::Parallelogram { q, r, direction } => Seq::new(
            (4 * q * r) as nat,
            |t: int| para_coord(q as int, r as int, direction as int, t),
        ),
        MapShape::Hexagon { radius } => hex_coords(radius as int),
        _ => Seq::empty(),
    }
}

/// The extents small enough for the generation arithmetic.
pub open spec fn shape_small(shape: MapShape) -> bool {
    match shape {
        MapShape::Parallelogram { q, r, direction } => q <= 0x1000 && r <= 0x1000,
        MapShape::Hexagon { radius } => radius <= 0x1000,
        _ => true,
    }
}

/// A hexagon row has one cell per index, from the row's start.
proof fn lemma_hex_row_props(radius: int, q: int, k: int)
    requires
        k >= 0,
    ensures
        hex_row(radius, q, k).len() == k,
        forall|u: int|
            0 <= u < k ==> hex_row(radius, q, k)[u] == hex_cell(
                q,
                hex_row_start(radius, q) + u,
            ),
    decreases k,
{
    if k > 0 {
        lemma_hex_row_props(radius, q, k - 1);
    }
}

/// A map over the hexagonal lattice: one generated value per coordinate
/// of its shape.
pub struct HexMap<T> {
    pub ground: Vec<(Coord, T)>,
}

impl<T> HexMap<T> {
    /// Generate the map of a shape: one `(coordinate, value)` pair per
    /// cell, in generation order, each value produced by the generator on
    /// its coordinate. The generator must accept every coordinate.
    pub fn new<F: Fn(Coord) -> T>(shape: MapShape, f: F) -> (m: HexMap<T>)
        requires
            shape_small(shape),
            forall|c: Coord| #[trigger] call_requires(f, (c,)),
        ensures
            m.ground@.len() == shape_coords(shape).len(),
            forall|t: int|
                0 <= t < m.ground@.len() ==> #[trigger] m.ground@[t].0 == shape_coords(
                    shape)[t],
            forall|t: int|
                0 <= t < m.ground@.len() ==> call_ensures(
                    f,
                    (#[trigger] m.ground@[t].0,),
                    m.ground@[t].1,
                ),
    {
        let mut ground: Vec<(Coord, T)> = Vec::new();
        match shape {
            MapShape::Parallelogram { q, r, direction } => {
                let q0 = q as i64;
                let r0 = r as i64;
                proof {
                    assert((-q0 + q0) * (2 * (r0 as int)) == 0) by (nonlinear_arith);
                }
                let mut qi: i64 = -q0;
                while qi < q0
                    invariant
                        shape == (MapShape::Parallelogram { q, r, direction }),
                        forall|c: Coord| #[trigger] call_requires(f, (c,)),
                        q0 == q,
                        r0 == r,
                        0 <= q0 <= 0x1000,
                        0 <= r0 <= 0x1000,
                        -q0 <= qi <= q0,
                        ground@.len() == (qi + q0) * (2 * r0),
                        forall|t: int|
                            0 <= t < ground@.len() ==> #[trigger] ground@[t].0 == para_coord(
                                q0 as int,
                                r0 as int,
                                direction as int,
                                t,
                            ),
                        forall|t: int|
                            0 <= t < ground@.len() ==> call_ensures(
                                f,
                                (#[trigger] ground@[t].0,),
                                ground@[t].1,
                            ),
                    decreases q0 - qi,
                {
                    let mut ri: i64 = -r0;
                    proof {
                        assert((qi + q0) * (2 * r0) >= 0 && (qi + q0) * (2 * r0) <= 0x4000_0000)
                            by (nonlinear_arith)
                            requires
                                0 <= qi + q0 <= 2 * q0,
                                0 <= q0 <= 0x1000,
                                0 <= r0 <= 0x1000,
                        ;
                    }
                    while ri < r0
                        invariant
                            shape == (MapShape::Parallelogram { q, r, direction }),
                            forall|c: Coord| #[trigger] call_requires(f, (c,)),
                            q0 == q,
                            r0 == r,
                            0 <= q0 <= 0x1000,
                            0 <= r0 <= 0x1000,
                            -q0 <= qi < q0,
                            -r0 <= ri <= r0,
                            0 <= (qi + q0) * (2 * r0) <= 0x4000_0000,
                            ground@.len() == (qi + q0) * (2 * r0) + (ri + r0),
                            forall|t: int|
                                0 <= t < ground@.len() ==> #[trigger] ground@[t].0
                                    == para_coord(
                                    q0 as int,
                                    r0 as int,
                                    direction as int,
                                    t,
                                ),
                            forall|t: int|
                                0 <= t < ground@.len() ==> call_ensures(
                                    f,
                                    (#[trigger] ground@[t].0,),
                                    ground@[t].1,
                                ),
                        decreases r0 - ri,
                    {
                        let c: Coord = if direction == 0 {
                            BaseCoord(qi as i32, ri as i32, (-qi - ri) as i32)
                        } else if direction == 1 {
                            BaseCoord(qi as i32, (-qi - ri) as i32, ri as i32)
                        } else {
                            BaseCoord((-qi - ri) as i32, qi as i32, ri as i32)
                        };
                        proof {
                            let t = ground@.len() as int;
                            lemma_fundamental_div_mod_converse_div(
                                t,
                                2 * (r0 as int),
                                qi + q0,
                                ri + r0,
                            );
                            lemma_fundamental_div_mod_converse_mod(
                                t,
                                2 * (r0 as int),
                                qi + q0,
                                ri + r0,
                            );
                            assert(c == para_coord(q0 as int, r0 as int, direction as int, t));
                        }
                        let v = f(c);
                        ground.push((c, v));
                        ri = ri + 1;
                    }
                    proof {
                        assert((qi + 1 + q0) * (2 * r0) == (qi + q0) * (2 * r0) + 2 * r0)
                            by (nonlinear_arith);
                    }
                    qi = qi + 1;
                }
                proof {
                    assert((q0 + q0) * (2 * r0) == 4 * q0 * r0) by (nonlinear_arith);
                    assert(ground@.len() == shape_coords(shape).len());
                }
            },
            MapShape::Hexagon { radius } => {
                if radius >= 0 {
                    let rad = radius as i64;
                    let mut qv: i64 = -rad;
                    while qv <= rad
                        invariant
                            shape == (MapShape::Hexagon { radius }),
                            forall|c: Coord| #[trigger] call_requires(f, (c,)),
                            0 <= rad <= 0x1000,
                            rad == radius,
                            -rad <= qv <= rad + 1,
                            ground@.len() == hex_rows(rad as int, qv + rad).len(),
                            forall|t: int|
                                0 <= t < ground@.len() ==> #[trigger] ground@[t].0 == hex_rows(
                                    rad as int,
                                    qv + rad,
                                )[t],
                            forall|t: int|
                                0 <= t < ground@.len() ==> call_ensures(
                                    f,
                                    (#[trigger] ground@[t].0,),
                                    ground@[t].1,
                                ),
                        decreases rad + 1 - qv,
                    {
                        let r1: i64 = if -rad >= -qv - rad {
                            -rad
                        } else {
                            -qv - rad
                        };
                        let r2: i64 = if rad <= -qv + rad {
                            rad
                        } else {
                            -qv + rad
                        };
                        proof {
                            assert(r1 == hex_row_start(rad as int, qv as int));
                            assert(r2 - r1 + 1 == hex_row_len(rad as int, qv as int));
                            lemma_hex_row_props(
                                rad as int,
                                qv as int,
                                hex_row_len(rad as int, qv as int),
                            );
                        }
                        let ghost base = hex_rows(rad as int, qv + rad);
                        let mut rv: i64 = r1;
                        while rv <= r2
                            invariant
                                shape == (MapShape::Hexagon { radius }),
                                forall|c: Coord| #[trigger] call_requires(f, (c,)),
                                0 <= rad <= 0x1000,
                                rad == radius,
                                -rad <= qv <= rad,
                                r1 == hex_row_start(rad as int, qv as int),
                                r2 - r1 + 1 == hex_row_len(rad as int, qv as int),
                                r1 <= rv <= r2 + 1,
                                base == hex_rows(rad as int, qv + rad),
                                ground@.len() == base.len() + (rv - r1),
                                forall|t: int|
                                    0 <= t < base.len() ==> #[trigger] ground@[t].0 == base[t],
                                forall|u: int|
                                    0 <= u < rv - r1 ==> #[trigger] ground@[base.len() + u].0
                                        == hex_cell(qv as int, r1 + u),
                                forall|t: int|
                                    0 <= t < ground@.len() ==> call_ensures(
                                        f,
                                        (#[trigger] ground@[t].0,),
                                        ground@[t].1,
                                    ),
                            decreases r2 + 1 - rv,
                        {
                            let c: Coord = BaseCoord(
                                qv as i32,
                                rv as i32,
                                (-qv - rv) as i32,
                            );
                            proof {
                                assert(c == hex_cell(qv as int, r1 + (rv - r1)));
                            }
                            let v = f(c);
                            ground.push((c, v));
                            rv = rv + 1;
                        }
                        proof {
                            let k = qv + rad;
                            let row = hex_row(
                                rad as int,
                                qv as int,
                                hex_row_len(rad as int, qv as int),
                            );
                            assert(hex_rows(rad as int, k + 1) == hex_rows(rad as int, k)
                                + row);
                            assert forall|t: int| 0 <= t < ground@.len() implies #[trigger]
                            ground@[t].0 == hex_rows(rad as int, k + 1)[t] by {
                                if t >= base.len() {
                                    let u = t - base.len();
                                    assert(ground@[base.len() + u].0 == hex_cell(
                                        qv as int,
                                        r1 + u,
                                    ));
                                    assert(row[u] == hex_cell(
                                        qv as int,
                                        hex_row_start(rad as int, qv as int) + u,
                                    ));
                                }
                            }
                        }
                        qv = qv + 1;
                    }
                }
            },
            MapShape::Triangle { size: _, pointy: _ } => {},
            MapShape::Rectangle => {},
        }
        HexMap { ground }
    }
}

} // verus!
