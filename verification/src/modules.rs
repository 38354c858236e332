//! The module contract, the registry of module types, and the manager that
//! turns a topology into a wired, running graph.

pub mod channel;
pub mod error;
pub mod graph;
pub mod manager;
pub mod module;
pub mod registry;
pub mod supervisor;
pub mod tcpsocket;
pub mod tcpwriter;
pub mod topology;
pub mod wiring;
