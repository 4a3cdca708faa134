//! State of the lattice viewer: a generated map and a spin angle that
//! advances with time. Rendering itself is a host concern; this holds the
//! piece of it that is plain state.

use vstd::prelude::*;
use crate::hexmap::HexMap;

verus! {

/// The viewer state: the map on display and the current rotation, in
/// `fxp::FP_ONE` fixed-point radians.
pub struct App {
    pub map: HexMap<i32>,
    pub rotation: i64,
}

impl App {
    /// A viewer showing `map`, not yet rotated.
    pub fn new(map: HexMap<i32>) -> (a: App)
        ensures
            a.map == map,
            a.rotation == 0,
    {
        App { map, rotation: 0 }
    }

    /// Advance the spin by two radians per second of `dt` fixed-point
    /// seconds.
    pub fn update(&mut self, dt: i64)
        requires
            0 <= dt <= 0x4000_0000,
            old(self).rotation + 2 * dt <= i64::MAX,
            i64::MIN <= old(self).rotation,
        ensures
            final(self).rotation == old(self).rotation + 2 * dt,
            final(self).map == old(self).map,
    {
        self.rotation = self.rotation + 2 * dt;
    }
}

} // verus!
