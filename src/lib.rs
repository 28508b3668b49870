//! Host-side search engine of a GPU SHA-256 miner: the 256-bit candidate
//! counter, the difficulty predicate and the kernel text built from it, and
//! the decisions of the dispatch loop.

pub mod buffers;
pub mod candidate;
pub mod counter;
pub mod decimal;
pub mod predicate;
pub mod render;
pub mod report;
pub mod search;
pub mod wgsl;
