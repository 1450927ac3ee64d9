//! A random walk over a directed graph, and the edge-highlight state machine
//! that follows the walk's events.
pub mod graph;
pub mod walk;
pub mod highlight;
