//! Core cost-model library for a road-network routing engine.
//!
//! The library computes, for every edge and edge-to-edge transition visited
//! during a least-cost-path search, a multi-dimensional accumulated state
//! (distance, energy, ...) and scalar costs used to rank candidate paths.
//! Scalars are fixed-point integers: a `StateVar` counts thousandths of the
//! owning model's configured unit.

pub mod graph;
pub mod grid_search;
pub mod composite;
pub mod json;
pub mod prediction;
pub mod state;
pub mod traversal;
pub mod turn;
pub mod units;
