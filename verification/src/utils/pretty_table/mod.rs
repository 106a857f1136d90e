//! Tables with frames, colours and a width to keep to.
pub mod cell;
pub mod style;
pub mod table;

pub use table::Table;
