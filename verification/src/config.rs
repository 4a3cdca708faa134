//! The immutable per-run parameter set of the simulation, with its
//! validation.
//!
//! All lengths, speeds and factors are fixed-point scalars (`fxp::FP_ONE`
//! units per world unit). The dead angle is configured through the cosine of
//! the threshold angle, also in fixed-point: a value of `FP_ONE` (cosine 1)
//! disables the exclusion, `-FP_ONE` excludes every neighbor the test can
//! reach.

use vstd::prelude::*;
use crate::fxp::FP_ONE;

verus! {

/// Largest admissible parameter value, in fixed-point units.
pub const PARAM_MAX: i64 = 0x4000_0000;

/// Largest admissible population.
pub const POPULATION_MAX: usize = 65536;

/// The immutable parameter set of one run.
#[derive(Clone, Copy, Debug, PartialEq, Eq, Structural)]
pub struct SimulationConfig {
    /// Number of agents; fixed for the lifetime of a run.
    pub population: usize,
    /// Detection distance of the cohesion behavior.
    pub cohesion_radius: i64,
    /// Strength of the pull toward the neighborhood centroid.
    pub cohesion_factor: i64,
    /// Detection distance of the alignment behavior.
    pub alignment_radius: i64,
    /// Strength of the pull toward the neighborhood's average velocity.
    pub alignment_factor: i64,
    /// Detection distance of the repulsion behavior.
    pub repulsion_radius: i64,
    /// Strength of the push away from close neighbors.
    pub repulsion_factor: i64,
    /// Lower clamp bound on speed.
    pub min_speed: i64,
    /// Upper clamp bound on speed.
    pub max_speed: i64,
    /// Upper clamp bound on the magnitude of the net steering force.
    pub max_acceleration: i64,
    /// Cosine of the dead angle, scaled by `FP_ONE`.
    pub dead_angle_cos: i64,
    /// Arena width; the arena is centered at the origin.
    pub width: i64,
    /// Arena height.
    pub height: i64,
}

/// Why a configuration was rejected.
#[derive(Clone, Copy, Debug, PartialEq, Eq, Structural)]
pub enum ConfigError {
    /// A radius, factor, speed bound or acceleration bound is negative.
    NegativeParameter,
    /// A parameter exceeds `PARAM_MAX`.
    ParameterTooLarge,
    /// `min_speed` exceeds `max_speed`.
    SpeedBoundsInverted,
    /// The arena width or height is not positive.
    NonPositiveArena,
    /// The dead-angle cosine lies outside `[-FP_ONE, FP_ONE]`.
    DeadAngleCosOutOfRange,
    /// The population exceeds `POPULATION_MAX`.
    PopulationTooLarge,
}

impl SimulationConfig {
    /// Some radius, factor, speed or acceleration bound is negative.
    pub open spec fn has_negative_parameter(self) -> bool {
        self.cohesion_radius < 0 || self.cohesion_factor < 0 || self.alignment_radius < 0
            || self.alignment_factor < 0 || self.repulsion_radius < 0
            || self.repulsion_factor < 0 || self.min_speed < 0 || self.max_speed < 0
            || self.max_acceleration < 0
    }

    /// Some radius, factor, speed, acceleration bound or arena extent
    /// exceeds `PARAM_MAX`.
    pub open spec fn has_oversized_parameter(self) -> bool {
        self.cohesion_radius > PARAM_MAX || self.cohesion_factor > PARAM_MAX
            || self.alignment_radius > PARAM_MAX || self.alignment_factor > PARAM_MAX
            || self.repulsion_radius > PARAM_MAX || self.repulsion_factor > PARAM_MAX
            || self.min_speed > PARAM_MAX || self.max_speed > PARAM_MAX
            || self.max_acceleration > PARAM_MAX || self.width > PARAM_MAX
            || self.height > PARAM_MAX
    }

    /// The outcome of validation, with the checks in a fixed order.
    pub open spec fn spec_validate(self) -> Result<(), ConfigError> {
        if self.has_negative_parameter() {
            Err(ConfigError::NegativeParameter)
        } else if self.has_oversized_parameter() {
            Err(ConfigError::ParameterTooLarge)
        } else if self.min_speed > self.max_speed {
            Err(ConfigError::SpeedBoundsInverted)
        } else if self.width <= 0 || self.height <= 0 {
            Err(ConfigError::NonPositiveArena)
        } else if self.dead_angle_cos < -FP_ONE || self.dead_angle_cos > FP_ONE {
            Err(ConfigError::DeadAngleCosOutOfRange)
        } else if self.population > POPULATION_MAX {
            Err(ConfigError::PopulationTooLarge)
        } else {
            Ok(())
        }
    }

    /// The configuration invariant every run is created under.
    pub open spec fn valid(self) -> bool {
        &&& 0 <= self.cohesion_radius <= PARAM_MAX
        &&& 0 <= self.cohesion_factor <= PARAM_MAX
        &&& 0 <= self.alignment_radius <= PARAM_MAX
        &&& 0 <= self.alignment_factor <= PARAM_MAX
        &&& 0 <= self.repulsion_radius <= PARAM_MAX
        &&& 0 <= self.repulsion_factor <= PARAM_MAX
        &&& 0 <= self.min_speed <= self.max_speed <= PARAM_MAX
        &&& 0 <= self.max_acceleration <= PARAM_MAX
        &&& 1 <= self.width <= PARAM_MAX
        &&& 1 <= self.height <= PARAM_MAX
        &&& -FP_ONE <= self.dead_angle_cos <= FP_ONE
        &&& self.population <= POPULATION_MAX
    }

    /// Validate the configuration: `Ok` exactly on valid configurations,
    /// otherwise the first failing check in the order of `spec_validate`.
    pub fn validate(&self) -> (r: Result<(), ConfigError>)
        ensures
            r == self.spec_validate(),
            r is Ok <==> self.valid(),
    {
        if self.cohesion_radius < 0 || self.cohesion_factor < 0 || self.alignment_radius < 0
            || self.alignment_factor < 0 || self.repulsion_radius < 0
            || self.repulsion_factor < 0 || self.min_speed < 0 || self.max_speed < 0
            || self.max_acceleration < 0 {
            Err(ConfigError::NegativeParameter)
        } else if self.cohesion_radius > PARAM_MAX || self.cohesion_factor > PARAM_MAX
            || self.alignment_radius > PARAM_MAX || self.alignment_factor > PARAM_MAX
            || self.repulsion_radius > PARAM_MAX || self.repulsion_factor > PARAM_MAX
            || self.min_speed > PARAM_MAX || self.max_speed > PARAM_MAX
            || self.max_acceleration > PARAM_MAX || self.width > PARAM_MAX
            || self.height > PARAM_MAX {
            Err(ConfigError::ParameterTooLarge)
        } else if self.min_speed > self.max_speed {
            Err(ConfigError::SpeedBoundsInverted)
        } else if self.width <= 0 || self.height <= 0 {
            Err(ConfigError::NonPositiveArena)
        } else if self.dead_angle_cos < -FP_ONE || self.dead_angle_cos > FP_ONE {
            Err(ConfigError::DeadAngleCosOutOfRange)
        } else if self.population > POPULATION_MAX {
            Err(ConfigError::PopulationTooLarge)
        } else {
            Ok(())
        }
    }
}

} // verus!
