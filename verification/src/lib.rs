//! In-process profiling core: call statistics, bounded event logs, a scoped
//! metric registry, channel counters, thread sampling and the console's
//! presentation rules.

pub mod channel;
pub mod channel_table;
pub mod cli;
pub mod console;
pub mod event_log;
pub mod export;
pub mod recorder;
pub mod registry;
pub mod stats;
pub mod text;
pub mod threads;
