//! Cube coordinates on a hexagonal lattice.
//!
//! A coordinate is a triple `(x, y, z)` with the plane invariant
//! `x + y + z == 0`; the six lattice directions and the hex distance are
//! defined on it.

use vstd::prelude::*;
use vstd::math::abs;

verus! {

/// A coordinate triple over any scalar type.
#[derive(Clone, Copy, Debug, Hash, PartialEq, Eq, Structural)]
pub struct BaseCoord<T>(pub T, pub T, pub T);

/// A cube coordinate on the hexagonal lattice.
pub type Coord = BaseCoord<i32>;

/// Renders the out-of-plane rejection for `Coord::new`.
/// Relies on std's `format!` macro for the decimal rendering.
#[verifier::external_body]
fn plane_error(x: i32, y: i32, z: i32) -> String {
    format!("({},{},{}) is not on the hexa plane", x, y, z)
}

/// The unit coordinate of lattice direction `d`, for `d` in `[0, 6)`.
pub open spec fn hex_direction(d: int) -> Coord {
    if d == 0 {
        BaseCoord(1i32, 0i32, -1i32)
    } else if d == 1 {
        BaseCoord(1i32, -1i32, 0i32)
    } else if d == 2 {
        BaseCoord(0i32, -1i32, 1i32)
    } else if d == 3 {
        BaseCoord(-1i32, 0i32, 1i32)
    } else if d == 4 {
        BaseCoord(-1i32, 1i32, 0i32)
    } else {
        BaseCoord(0i32, 1i32, -1i32)
    }
}

impl Coord {
    /// The plane invariant of the cube representation.
    pub open spec fn on_plane(self) -> bool {
        self.0 + self.1 + self.2 == 0
    }

    /// The hex distance from the origin: half the sum of the component
    /// magnitudes.
    pub open spec fn spec_length(self) -> int {
        (abs(self.0 as int) + abs(self.1 as int) + abs(self.2 as int)) as int / 2
    }

    /// The origin.
    pub fn zero() -> (c: Coord)
        ensures
            c == BaseCoord(0i32, 0i32, 0i32),
    {
        BaseCoord(0, 0, 0)
    }

    /// Accept exactly the triples on the hexagonal plane; any other
    /// triple is rejected with a message naming it.
    pub fn new(x: i32, y: i32, z: i32) -> (r: Result<Self, String>)
        ensures
            r is Ok <==> x + y + z == 0,
            r matches Ok(c) ==> c == BaseCoord(x, y, z),
    {
        let sum = (x as i64) + (y as i64) + (z as i64);
        if sum != 0 {
            Err(plane_error(x, y, z))
        } else {
            Ok(BaseCoord(x, y, z))
        }
    }

    pub fn x(&self) -> (r: i32)
        ensures
            r == self.0,
    {
        self.0
    }

    pub fn y(&self) -> (r: i32)
        ensures
            r == self.1,
    {
        self.1
    }

    pub fn z(&self) -> (r: i32)
        ensures
            r == self.2,
    {
        self.2
    }

    /// Componentwise sum; the plane invariant is preserved.
    pub fn add(self, other: Coord) -> (r: Coord)
        requires
            i32::MIN <= self.0 + other.0 <= i32::MAX,
            i32::MIN <= self.1 + other.1 <= i32::MAX,
            i32::MIN <= self.2 + other.2 <= i32::MAX,
        ensures
            r.0 == self.0 + other.0,
            r.1 == self.1 + other.1,
            r.2 == self.2 + other.2,
            self.on_plane() && other.on_plane() ==> r.on_plane(),
    {
        BaseCoord(self.0 + other.0, self.1 + other.1, self.2 + other.2)
    }

    /// Componentwise difference; the plane invariant is preserved.
    pub fn sub(self, other: Coord) -> (r: Coord)
        requires
            i32::MIN <= self.0 - other.0 <= i32::MAX,
            i32::MIN <= self.1 - other.1 <= i32::MAX,
            i32::MIN <= self.2 - other.2 <= i32::MAX,
        ensures
            r.0 == self.0 - other.0,
            r.1 == self.1 - other.1,
            r.2 == self.2 - other.2,
            self.on_plane() && other.on_plane() ==> r.on_plane(),
    {
        BaseCoord(self.0 - other.0, self.1 - other.1, self.2 - other.2)
    }

    /// Componentwise scaling; the plane invariant is preserved.
    pub fn mul(self, k: i32) -> (r: Coord)
        requires
            i32::MIN <= self.0 * k <= i32::MAX,
            i32::MIN <= self.1 * k <= i32::MAX,
            i32::MIN <= self.2 * k <= i32::MAX,
        ensures
            r.0 == self.0 * k,
            r.1 == self.1 * k,
            r.2 == self.2 * k,
            self.on_plane() ==> r.on_plane(),
    {
        proof {
            if self.on_plane() {
                assert((self.0 + self.1 + self.2) * k == self.0 * k + self.1 * k + self.2
                    * k) by (nonlinear_arith);
            }
        }
        let a = ((self.0 as i64) * (k as i64)) as i32;
        let b = ((self.1 as i64) * (k as i64)) as i32;
        let c = ((self.2 as i64) * (k as i64)) as i32;
        BaseCoord(a, b, c)
    }

    /// The hex distance from the origin.
    pub fn length(&self) -> (r: i32)
        requires
            self.spec_length() <= i32::MAX,
        ensures
            r == self.spec_length(),
    {
        let a0: i64 = if self.0 < 0 {
            -(self.0 as i64)
        } else {
            self.0 as i64
        };
        let a1: i64 = if self.1 < 0 {
            -(self.1 as i64)
        } else {
            self.1 as i64
        };
        let a2: i64 = if self.2 < 0 {
            -(self.2 as i64)
        } else {
            self.2 as i64
        };
        let sum = a0 + a1 + a2;
        (((sum as u64) / 2) as i64) as i32
    }

    /// The hex distance between two coordinates.
    pub fn distance(self, other: Coord) -> (r: i32)
        requires
            i32::MIN <= self.0 - other.0 <= i32::MAX,
            i32::MIN <= self.1 - other.1 <= i32::MAX,
            i32::MIN <= self.2 - other.2 <= i32::MAX,
            BaseCoord((self.0 - other.0) as i32, (self.1 - other.1) as i32, (self.2
                - other.2) as i32).spec_length() <= i32::MAX,
        ensures
            r == BaseCoord((self.0 - other.0) as i32, (self.1 - other.1) as i32, (self.2
                - other.2) as i32).spec_length(),
    {
        self.sub(other).length()
    }

    /// The unit coordinate of direction `direction`, taken modulo six.
    pub fn direction(direction: usize) -> (r: Coord)
        ensures
            r == hex_direction(direction as int % 6),
    {
        match direction % 6 {
            0 => BaseCoord(1, 0, -1),
            1 => BaseCoord(1, -1, 0),
            2 => BaseCoord(0, -1, 1),
            3 => BaseCoord(-1, 0, 1),
            4 => BaseCoord(-1, 1, 0),
            _ => BaseCoord(0, 1, -1),
        }
    }

    /// The neighbor one step along direction `direction`.
    pub fn neighbour(self, direction: usize) -> (r: Coord)
        requires
            i32::MIN <= self.0 + hex_direction(direction as int % 6).0 <= i32::MAX,
            i32::MIN <= self.1 + hex_direction(direction as int % 6).1 <= i32::MAX,
            i32::MIN <= self.2 + hex_direction(direction as int % 6).2 <= i32::MAX,
        ensures
            r.0 == self.0 + hex_direction(direction as int % 6).0,
            r.1 == self.1 + hex_direction(direction as int % 6).1,
            r.2 == self.2 + hex_direction(direction as int % 6).2,
            self.on_plane() ==> r.on_plane(),
    {
        self.add(Coord::direction(direction))
    }

    /// Ring enumeration; yields no coordinates.
    #[allow(unused_variables)]
    pub fn ring(&self, radius: usize) -> (r: Vec<Coord>)
        ensures
            r@.len() == 0,
    {
        Vec::new()
    }
}

} // verus!
