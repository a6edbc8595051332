//! A verified production-graph calculator.
//!
//! Users assemble a graph of resource sources, recipes (simple or compound)
//! and sinks, connected by typed flow edges; the solver orders the nodes,
//! propagates produced and consumed amounts forward along the edges, and runs
//! a single backward pass that throttles upstream supply when a downstream
//! consumer cannot absorb everything that was produced.
//!
//! Amounts per unit of time are exact rational numbers ([`frac::Frac`]), so
//! every computation of the solver is deterministic and stated exactly in the
//! contracts of this crate.

pub mod arrow_flow;
pub mod compound_recipe_window;
pub mod error;
pub mod formatting;
pub mod frac;
pub mod ports;
pub mod recipe_graph;
pub mod recipe_window;
pub mod resource_flow;
pub mod resource_sink;
pub mod resources;
pub mod resources_sources;
pub mod utils;
