//! Verified core of a periodic HTTP probe runner: a fixed set of jobs, each
//! dispatched on its own whole-second interval forever, every dispatch
//! recorded as one outcome. Configuration validation, request building, the
//! per-job runner state machine and the tick-schedule arithmetic live here;
//! the network and timer plumbing around them does not.

pub mod job;
pub mod method;
pub mod outcome;
pub mod request;
pub mod runner;
pub mod schedule;
