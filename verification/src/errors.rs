//! Configuration errors.
//!
//! The animation core has a single error family: a configuration value
//! rejected at construction or update time. It is reported to the caller,
//! never silently clamped. The other conceivable failure — a phase length
//! of zero reaching the velocity division — is excluded by construction:
//! phase lengths are drawn from a range whose lower end is positive, and
//! the proofs show the division is always by a positive count.

use vstd::prelude::*;

verus! {

/// A rejected configuration value.
#[derive(Clone, Copy, Debug, PartialEq, Eq, Structural)]
pub enum ConfigError {
    /// The lattice was asked for zero rows.
    ZeroRows,
    /// The lattice was asked for zero columns.
    ZeroColumns,
    /// A motion probability above one (in micro-units, above `MICRO`).
    MotionProbabilityOutOfRange,
}

impl ConfigError {
    /// A short description of the error.
    pub fn describe(&self) -> (text: &'static str) {
        match self {
            ConfigError::ZeroRows => "rows must be positive",
            ConfigError::ZeroColumns => "columns must be positive",
            ConfigError::MotionProbabilityOutOfRange => {
                "motion probability must be at most one"
            },
        }
    }
}

} // verus!
