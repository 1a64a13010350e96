//! Community detection on undirected graphs by label propagation, scored by
//! exact-rational modularity.
//!
//! [`graph`] builds and models the adjacency structure, [`engine`] runs the
//! parallel label propagation rounds and tracks the best assignment seen, and
//! [`modularity`] evaluates an assignment exactly, as an integer numerator
//! over the fixed denominator `(2m)^2`.

pub mod engine;
pub mod graph;
pub mod modularity;
pub mod rng;
