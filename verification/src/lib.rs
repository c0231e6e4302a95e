//! Residency ledger and placement primitives for a compute orchestrator that schedules
//! inference, functions and long-running services against one shared memory budget, and the
//! navigation of the slide deck that presents it.
pub mod blob;
pub mod own;
pub mod tier;
pub mod cache;
pub mod engine;
pub mod oracle;
pub mod machine;
pub mod boundary;
pub mod flow;
pub mod span;
pub mod topo;
pub mod plat;
pub mod store;
pub mod work;
pub mod deck;
pub mod arms;
