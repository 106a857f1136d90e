//! What the rest of the crate needs and is not about jobs.
pub mod pretty_table;
