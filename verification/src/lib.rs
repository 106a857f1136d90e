//! A job queue: jobs wait, reserve GPUs, run, and leave a record behind.
//!
//! The crate holds the rules of the queue and everything that is computed
//! around it: the scheduler state, the daemon's answers to requests, the
//! client's decisions, message framing, and the tables that show jobs.
use vstd::prelude::*;

pub mod cli;
pub mod clock;
pub mod gpu;
pub mod ipc;
pub mod paths;
pub mod settings;
pub mod text;
pub mod utils;

verus! {

} // verus!
