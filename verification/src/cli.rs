//! The command line of the console program, as the values it is parsed into.

use vstd::prelude::*;

verus! {

/// Port on which a profiled program serves its metrics unless told otherwise.
pub const DEFAULT_METRICS_PORT: u16 = 6770;

/// Milliseconds between two polls of the metrics unless told otherwise.
pub const DEFAULT_REFRESH_INTERVAL_MS: u64 = 500;

/// The options of the console.
#[derive(Clone, Copy, Debug, PartialEq, Eq)]
pub struct ConsoleArgs {
    /// Port of the metrics server to poll.
    pub metrics_port: u16,
    /// Milliseconds between two polls.
    pub refresh_interval: u64,
}

impl Default for ConsoleArgs {
    fn default() -> (r: ConsoleArgs)
        ensures
            r.metrics_port == DEFAULT_METRICS_PORT,
            r.refresh_interval == DEFAULT_REFRESH_INTERVAL_MS,
    {
        ConsoleArgs {
            metrics_port: DEFAULT_METRICS_PORT,
            refresh_interval: DEFAULT_REFRESH_INTERVAL_MS,
        }
    }
}

/// The subcommands of the program.
#[derive(Clone, Copy, Debug, PartialEq, Eq)]
pub enum HPSubcommand {
    /// Launch the console that shows a program's metrics as they change.
    Console(ConsoleArgs),
}

/// The parsed command line.
#[derive(Clone, Copy, Debug, PartialEq, Eq)]
pub struct HPArgs {
    pub cmd: HPSubcommand,
}

impl HPArgs {
    /// The options of the console that the command line asks for.
    pub fn console_args(&self) -> (r: ConsoleArgs)
        ensures
            self.cmd == HPSubcommand::Console(r),
    {
        match self.cmd {
            HPSubcommand::Console(args) => args,
        }
    }
}

} // verus!
