//! A spatial Bloom filter: a probabilistic membership structure that, besides
//! the usual "maybe present / definitely absent" answer, reports which one of
//! a finite collection of disjoint labeled areas an element belongs to, with
//! a strict precedence rule when labels collide.
//!
//! The filter core — salted multi-hash indexing, the monotone write rule, the
//! minimum-over-probes read rule — and the population counters kept during
//! insertion are verified here, together with the laws they obey. The
//! floating-point estimators derived from the counters (sparsity,
//! false-positive and inter-set error probabilities, emersion, safeness) are
//! computed by callers from the verified integer readings this crate exposes.

pub mod counting;
pub mod error;
pub mod hashing;
pub mod hierarchy;
pub mod laws;
pub mod metrics;
pub mod model;
pub mod rng;
pub mod sbf;

pub use error::Error;
pub use hierarchy::HierarchyTree;
pub use hierarchy::Iter;
pub use metrics::Metrics;
pub use sbf::HashFunction;
pub use sbf::SBF;
