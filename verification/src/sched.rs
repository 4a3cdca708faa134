//! The tick scheduler: the small state machine a host drives the
//! simulation through.
//!
//! `Uninitialized -> Ready` on a successful `initialize`; `Ready` and
//! `Paused` move to `Running` on `resume`; `Running` moves to `Paused` on
//! `pause`. Time-step requests advance the simulation only in `Running`:
//! in every other phase they are dropped without touching any state.
//! `restart` reinitializes every agent from a fresh seed and returns to
//! `Ready`, keeping the configured population.

use vstd::prelude::*;
use crate::agent::{AgentStore, agents_wf};
use crate::config::{SimulationConfig, ConfigError, PARAM_MAX};
use crate::sim::{initialize, tick, spec_initialize, spec_tick};

verus! {

/// The phase of the scheduler's state machine.
#[derive(Clone, Copy, Debug, PartialEq, Eq, Structural)]
pub enum SimPhase {
    Uninitialized,
    Ready,
    Running,
    Paused,
}

/// The scheduler: the current phase, the configuration of the run and the
/// agent store it owns.
pub struct TickScheduler {
    pub phase: SimPhase,
    pub config: SimulationConfig,
    pub store: AgentStore,
}

impl TickScheduler {
    /// The scheduler invariant: outside `Uninitialized` the configuration
    /// is valid and the store satisfies the per-run invariant.
    pub open spec fn wf(self) -> bool {
        self.phase != SimPhase::Uninitialized ==> self.config.valid() && agents_wf(
            self.store@, self.config)
    }

    /// A fresh scheduler with no run.
    pub fn new() -> (s: TickScheduler)
        ensures
            s.phase == SimPhase::Uninitialized,
            s.wf(),
    {
        TickScheduler {
            phase: SimPhase::Uninitialized,
            config: SimulationConfig {
                population: 0,
                cohesion_radius: 0,
                cohesion_factor: 0,
                alignment_radius: 0,
                alignment_factor: 0,
                repulsion_radius: 0,
                repulsion_factor: 0,
                min_speed: 0,
                max_speed: 0,
                max_acceleration: 0,
                dead_angle_cos: 0,
                width: 0,
                height: 0,
            },
            store: AgentStore { agents: Vec::new() },
        }
    }

    /// Start a run: valid from any phase. On a valid configuration the
    /// agents are created from the seed and the phase becomes `Ready`; on
    /// an invalid one nothing changes and the validation error is
    /// returned.
    pub fn initialize(&mut self, config: &SimulationConfig, seed: u64) -> (r: Result<
        (),
        ConfigError,
    >)
        requires
            old(self).wf(),
        ensures
            final(self).wf(),
            r is Ok <==> config.valid(),
            r matches Err(e) ==> Err::<(), ConfigError>(e) == config.spec_validate()
                && *final(self) == *old(self),
            r is Ok ==> final(self).phase == SimPhase::Ready && final(self).config == *config
                && final(self).store@ == spec_initialize(*config, seed),
    {
        match initialize(config, seed) {
            Ok(store) => {
                self.phase = SimPhase::Ready;
                self.config = *config;
                self.store = store;
                Ok(())
            },
            Err(e) => Err(e),
        }
    }

    /// Move `Ready` or `Paused` to `Running`; in any other phase nothing
    /// changes.
    pub fn resume(&mut self)
        requires
            old(self).wf(),
        ensures
            final(self).wf(),
            old(self).phase == SimPhase::Ready || old(self).phase == SimPhase::Paused
                ==> final(self).phase == SimPhase::Running,
            old(self).phase == SimPhase::Uninitialized || old(self).phase
                == SimPhase::Running ==> final(self).phase == old(self).phase,
            final(self).config == old(self).config,
            final(self).store@ == old(self).store@,
    {
        match self.phase {
            SimPhase::Ready => {
                self.phase = SimPhase::Running;
            },
            SimPhase::Paused => {
                self.phase = SimPhase::Running;
            },
            _ => {},
        }
    }

    /// Move `Running` to `Paused`; in any other phase nothing changes.
    pub fn pause(&mut self)
        requires
            old(self).wf(),
        ensures
            final(self).wf(),
            old(self).phase == SimPhase::Running ==> final(self).phase == SimPhase::Paused,
            old(self).phase != SimPhase::Running ==> final(self).phase == old(self).phase,
            final(self).config == old(self).config,
            final(self).store@ == old(self).store@,
    {
        if matches!(self.phase, SimPhase::Running) {
            self.phase = SimPhase::Paused;
        }
    }

    /// A time-step request: advances the simulation by one tick of `dt`
    /// only in `Running`; in every other phase the request is dropped and
    /// nothing changes.
    pub fn step(&mut self, dt: i64)
        requires
            old(self).wf(),
            0 <= dt <= PARAM_MAX,
        ensures
            final(self).wf(),
            final(self).phase == old(self).phase,
            final(self).config == old(self).config,
            old(self).phase == SimPhase::Running ==> final(self).store@ == spec_tick(
                old(self).store@, old(self).config, dt as int),
            old(self).phase != SimPhase::Running ==> final(self).store@ == old(self).store@,
    {
        if matches!(self.phase, SimPhase::Running) {
            let config = self.config;
            tick(&mut self.store, &config, dt);
        }
    }

    /// Reinitialize every agent from a fresh seed and return to `Ready`;
    /// the population stays as configured. Valid from any phase of a run;
    /// without a run there is nothing to restart.
    pub fn restart(&mut self, seed: u64)
        requires
            old(self).wf(),
            old(self).phase != SimPhase::Uninitialized,
        ensures
            final(self).wf(),
            final(self).phase == SimPhase::Ready,
            final(self).config == old(self).config,
            final(self).store@ == spec_initialize(old(self).config, seed),
    {
        let config = self.config;
        match initialize(&config, seed) {
            Ok(store) => {
                self.store = store;
                self.phase = SimPhase::Ready;
            },
            Err(_) => {
                proof {
                    assert(false);
                }
            },
        }
    }
}

} // verus!
