//! The unit of data that flows through the graph.

pub mod message;
