//! Aggregation core for a small environmental sensor station: running
//! statistics per sensor, a named registry of them, a polling pass over the
//! sensor modules, and the control state of the background polling engine.

pub mod engine;
pub mod error;
pub mod modules;
pub mod render;
pub mod stat_item;
pub mod stat_list;

pub use engine::{
    interval_from_config, parse_interval_ms, EngineControl, EngineState, LoopAction, LoopPhase,
    PollLoop, DEFAULT_INTERVAL_MS,
};
pub use error::StatsError;
pub use modules::{
    AM2320Usage, DebugBoolModule, DebugModule, DebugNumericModule, DebugTemperatureModule, IModule,
    IStatsGetter, ModuleStatsGetter,
};
pub use render::JsonConv;
pub use stat_item::{BoolStat, NumericStat, NumericType, StatItem, StatType};
pub use stat_list::Stats;
