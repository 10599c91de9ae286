//! What the data sources decide, apart from reading files: the byte ranges of a Parquet read,
//! the headers of tensor files, the plan of splits, and the counters.

pub mod group;
pub mod laws;
pub mod npy;
pub mod plan;
pub mod read;
pub mod stats;
