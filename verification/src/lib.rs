//! Helpers for driving the service- and device-configuration command line
//! tools: sanitized child environments, command descriptors, line-oriented
//! output handling, and exit statuses turned into structured errors.
//!
//! Spawning, stream draining and waiting are the caller's: this crate builds
//! the invocation, decides what each observed line or status means, and
//! enforces that the exit-status wait comes only after every piped stream
//! has been drained.

pub mod command;
pub mod environ;
pub mod props;
pub mod runner;
pub mod text;

pub use command::{build_cmd, CommandSpec};
pub use environ::{build_env, sanitize_env};
pub use props::{devprop, devprop_args, svccfg, svcprop, svcprop_args};
pub use runner::{
    capture_outcome, drain_start, finish_run, note_eof, reader_record, ready_to_wait,
    CapturedOutput, DrainState, Error, ExitInfo, StreamEvent,
};
