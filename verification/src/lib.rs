//! Verified solutions to a set of small weekly coding exercises: uniqueness
//! checks, pair-swapping and run-collapsing sequence transformers, a bounded
//! counter, ordinal suffixes, windowed subarray searches, spreadsheet column
//! arithmetic, and a few other short pure functions.

pub mod column;
pub mod every_other;
pub mod fromto;
pub mod iters;
pub mod missing;
pub mod ordinal;
pub mod passes;
pub mod replace;
pub mod slice;
pub mod subarray;
pub mod text;
pub mod unique;
