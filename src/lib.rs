//! Prestart hook library: selects the host device nodes that belong to a seat
//! and merges them into a container runtime specification.
pub mod decimal;
pub mod device;
pub mod runtime_spec;
pub mod laws;
pub mod cli;
