//! The engine-relevant configuration values and their defaults. Reading and
//! writing the configuration file, paths and locale detection live with the
//! surrounding program; the engine consumes only these plain values.

use vstd::prelude::*;

verus! {

/// The user-interface theme.
#[derive(Clone, Copy, Debug, PartialEq, Eq, Structural)]
pub enum Theme {
    Light,
    Dark,
}

/// The backpressure ceiling of each input queue, in entries.
pub const DEFAULT_MAX_QUEUE_LENGTH: u32 = 1200;

/// How many ticks of input each side buffers before consumption.
pub const DEFAULT_INPUT_DELAY: u32 = 2;

/// The match type offered when the user picks none.
pub const DEFAULT_MATCH_TYPE: u8 = 1;

/// How many consecutive stalled ticks a round absorbs before it is treated
/// as a fatal desynchronization.
pub const DEFAULT_STALL_TIMEOUT: u32 = 180;

/// The native tick rate of the emulation core, in ticks per second.
pub const NOMINAL_TPS: u32 = 60;

/// The engine's defaults: a fresh configuration starts the light theme, the
/// standard queue ceiling, delay and match type.
pub fn system_default_theme() -> (r: Theme)
    ensures
        r == Theme::Light,
{
    Theme::Light
}

/// The sync-engine parameters a fresh configuration carries.
#[derive(Clone, Copy, Debug, PartialEq, Eq, Structural)]
pub struct EngineConfig {
    pub max_queue_length: u32,
    pub default_input_delay: u32,
    pub default_match_type: u8,
    pub stall_timeout: u32,
    pub nominal_tps: u32,
}

impl EngineConfig {
    /// The values a configuration is created with when none is stored.
    pub fn system_defaults() -> (r: EngineConfig)
        ensures
            r == (EngineConfig {
                max_queue_length: DEFAULT_MAX_QUEUE_LENGTH,
                default_input_delay: DEFAULT_INPUT_DELAY,
                default_match_type: DEFAULT_MATCH_TYPE,
                stall_timeout: DEFAULT_STALL_TIMEOUT,
                nominal_tps: NOMINAL_TPS,
            }),
    {
        EngineConfig {
            max_queue_length: DEFAULT_MAX_QUEUE_LENGTH,
            default_input_delay: DEFAULT_INPUT_DELAY,
            default_match_type: DEFAULT_MATCH_TYPE,
            stall_timeout: DEFAULT_STALL_TIMEOUT,
            nominal_tps: NOMINAL_TPS,
        }
    }
}

} // verus!
