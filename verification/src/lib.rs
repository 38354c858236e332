//! A declarative module-graph message router.
//!
//! A topology names processing units ("modules") and directed connections
//! ("routes") between them. The [`modules::manager::Manager`] builds every
//! declared module through the [`modules::registry::ModulesRegistry`], checks
//! the routes against the declared names, gives each route a channel and hands
//! its halves to the modules that the route names, and launches the modules
//! that some route reaches. Whatever is wrong with a topology is found before
//! the first module runs.
//!
//! - [`configuration`] holds the decoded shape of a topology document.
//! - [`messaging`] holds the message, a record from string keys to values.
//! - [`modules`] holds the module contract, the registry, the graph with its
//!   wiring, the manager, and the bookkeeping of how the modules' tasks end.
//!
//! Modules are opaque to the library: it speaks to them through
//! [`modules::module::ModuleTrait`] alone, and a module never learns who is at
//! the other end of its channels.

pub mod configuration;
pub mod messaging;
pub mod modules;
