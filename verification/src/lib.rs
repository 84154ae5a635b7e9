//! TCP reachability probing: the decisions, the statistics and the text of a
//! session that probes one `host:port` target at a fixed cadence.
//!
//! The library holds no clock and no socket. Its caller measures each
//! connection attempt and hands the outcome in; the library says what to do
//! next and what to write. Durations are whole nanoseconds, packet loss is
//! hundredths of a percent.
//!
//! * [`cli`]: the arguments of a session and the command line that gives
//!   them.
//! * [`engine`]: the target as written, and the session as a machine from
//!   events to actions.
//! * [`probe`]: the outcome of one connection attempt.
//! * [`stats`]: the running statistics and the records made of them.
//! * [`quantile`]: the streaming estimate of the 0.95 quantile of the jitter.
//! * [`formatter`]: the records as text, or rounded for JSON.
//! * [`text`]: numbers and text as sequences of characters.
//! * [`error`]: what ends a session before its summary.

pub mod cli;
pub mod engine;
pub mod error;
pub mod formatter;
pub mod probe;
pub mod quantile;
pub mod stats;
pub mod text;
