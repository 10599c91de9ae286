//! Stand-ins for the parts of a run, with knobs to set and counters to read: what each would
//! do, without memory, files or threads of its own.

pub mod allocator;
pub mod laws;
pub mod sampler;
pub mod sink;
pub mod trace;
