//! Settings read at start-up.

use vstd::prelude::*;

verus! {

/// The `[general]` section of the settings.
pub struct General {
    /// Number of sugar hills seeded when the world is made.
    pub sugar_hills: u8,
    /// Energy that each new ant starts with.
    pub base_energy: u32,
}

/// All settings.
pub struct Config {
    pub general: General,
}

} // verus!
