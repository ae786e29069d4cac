//! Lifecycle-management core of a container shim.
//!
//! The library tracks every container and every process (init and exec)
//! running inside a shared sandbox, keeps the registry's bookkeeping under
//! exact contracts, and decides what each lifecycle request (create, start,
//! delete, kill, exec, wait, shutdown, ...) does to that state.  The actual
//! sandbox engine, the wire transport and the blocking primitives live
//! outside the library; they hand plain values in and take plain values
//! back.

pub mod container;
pub mod directory;
pub mod encoding;
pub mod errors;
pub mod laws;
pub mod process;
pub mod session;
pub mod task;
