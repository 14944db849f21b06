//! Core logic of a small artifact registry: content hashing, size and
//! similarity estimates, and the bookkeeping behind push, pull, diff and search.

pub mod hash;
pub mod metrics;
pub mod registry;
pub mod text;

pub use hash::fnv1a;
pub use metrics::estimate_compressed_size;
