//! A simulation of autonomous ants whose behaviour comes from sandboxed
//! scripts. The library holds the verified core: the intents that a script
//! may queue, the per-ant command state machine, the perception debounce and
//! the tick phases of the world. Positions and angles are fixed-point
//! integers (see `common`).

pub mod common;
pub mod components;
pub mod config;
pub mod capability;
pub mod perception;
pub mod bridge;
pub mod game_state;
