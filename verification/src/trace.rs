//! The trace of a run: its records, a view over them, and the report's layout.

pub mod laws;
pub mod record;
pub mod render;
pub mod view;
