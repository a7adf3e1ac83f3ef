//! Background jobs.

pub mod command;
pub mod entry;
pub mod laws;
pub mod manager;
pub mod output;
pub mod reader;
pub mod tool_calls;

pub use self::command::{CommandEnding, CommandObservation, CommandRun, CommandStep};
pub use self::entry::{JobState, JobTerminalState};
pub use self::manager::{
    ManagedJobContext, ThreadlineJobManager, ThreadlineJobManagerConfig, DEFAULT_MAX_ACTIVE_JOBS,
    DEFAULT_MAX_RETAINED_JOBS,
};
pub use self::output::{JobOutputRingBuffer, OutputStream};
pub use self::tool_calls::ToolExecution;
