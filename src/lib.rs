//! A process-definition document model, the graph built from it, and a
//! navigation engine that walks that graph one flow node at a time.

pub mod definitions;
pub mod engine;
pub mod error;
pub mod graph;
pub mod laws;
