//! The queue, the daemon that serves it, and the client that talks to it.
pub mod batch;
pub mod client;
pub mod client_laws;
pub mod daemon;
pub mod job;
pub mod laws;
pub mod protocol;
pub mod queue;
pub mod request_laws;
pub mod run_laws;
pub mod scheduler;
