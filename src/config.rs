//! Simulation parameters, fixed once at start and checked before use.

use vstd::prelude::*;
use crate::geometry::{SCALE, Vec3i};

verus! {

/// The parameters of a fountain. Times are in milliseconds, lengths and
/// speeds in thousandths of a world unit, coefficients in thousandths of one.
#[derive(Clone, Copy, Debug, PartialEq, Eq, Structural)]
pub struct Config {
    /// Time between the admission of two batches.
    pub spawn_interval: u64,
    /// Number of particles created per admitted batch.
    pub batch_size: u64,
    /// Time a particle stays live after its creation.
    pub particle_lifetime: u64,
    /// Collision radius shared by all particles.
    pub particle_radius: i64,
    /// Lower corner of the box in which particles appear.
    pub spawn_min: Vec3i,
    /// Upper corner of the box in which particles appear.
    pub spawn_max: Vec3i,
    /// Magnitude of a new particle's velocity.
    pub initial_speed: i64,
    /// Downward change of vertical velocity per millisecond.
    pub gravity: i64,
    /// Height of the ground plane.
    pub ground_height: i64,
    /// Share of vertical speed kept by a bounce.
    pub restitution: u64,
    /// Share of horizontal speed kept by a ground contact.
    pub horizontal_damping: u64,
}

/// Why a configuration was rejected.
#[derive(Clone, Copy, Debug, PartialEq, Eq, Structural)]
pub enum ConfigError {
    /// A batch must hold at least one particle.
    ZeroBatch,
    /// A particle must live for a positive time.
    ZeroLifetime,
    /// The particle radius must be positive.
    NonPositiveRadius,
    /// The spawn box has an upper bound below its lower bound on some axis.
    EmptySpawnRegion,
    /// The initial speed is negative.
    NegativeSpeed,
    /// Gravity points upward.
    NegativeGravity,
    /// Restitution or damping lies outside `[0, SCALE]`.
    CoefficientOutOfRange,
}

impl Config {
    /// The spawn box holds at least one point.
    pub open spec fn region_nonempty(&self) -> bool {
        &&& self.spawn_min.x <= self.spawn_max.x
        &&& self.spawn_min.y <= self.spawn_max.y
        &&& self.spawn_min.z <= self.spawn_max.z
    }

    /// The first rule that the configuration breaks, if any.
    pub open spec fn first_error(&self) -> Option<ConfigError> {
        if self.batch_size == 0 {
            Some(ConfigError::ZeroBatch)
        } else if self.particle_lifetime == 0 {
            Some(ConfigError::ZeroLifetime)
        } else if self.particle_radius <= 0 {
            Some(ConfigError::NonPositiveRadius)
        } else if !self.region_nonempty() {
            Some(ConfigError::EmptySpawnRegion)
        } else if self.initial_speed < 0 {
            Some(ConfigError::NegativeSpeed)
        } else if self.gravity < 0 {
            Some(ConfigError::NegativeGravity)
        } else if self.restitution > SCALE || self.horizontal_damping > SCALE {
            Some(ConfigError::CoefficientOutOfRange)
        } else {
            None
        }
    }

    /// The configuration can drive a simulation.
    pub open spec fn wf(&self) -> bool {
        self.first_error() is None
    }

    /// Accepts a well-formed configuration and reports the first rule that
    /// any other breaks.
    pub fn validate(&self) -> (r: Result<(), ConfigError>)
        ensures
            r is Ok <==> self.wf(),
            r is Err ==> Some(r->Err_0) == self.first_error(),
    {
        if self.batch_size == 0 {
            Err(ConfigError::ZeroBatch)
        } else if self.particle_lifetime == 0 {
            Err(ConfigError::ZeroLifetime)
        } else if self.particle_radius <= 0 {
            Err(ConfigError::NonPositiveRadius)
        } else if !(self.spawn_min.x <= self.spawn_max.x && self.spawn_min.y <= self.spawn_max.y
            && self.spawn_min.z <= self.spawn_max.z) {
            Err(ConfigError::EmptySpawnRegion)
        } else if self.initial_speed < 0 {
            Err(ConfigError::NegativeSpeed)
        } else if self.gravity < 0 {
            Err(ConfigError::NegativeGravity)
        } else if self.restitution > SCALE || self.horizontal_damping > SCALE {
            Err(ConfigError::CoefficientOutOfRange)
        } else {
            Ok(())
        }
    }
}

} // verus!
