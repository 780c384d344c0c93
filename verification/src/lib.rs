//! Verified core of a process-instrumentation tool: it resolves the address of
//! a dynamically compiled function inside a foreign process, installs a
//! reversible detour at that address, toggles groups of no-op byte patches,
//! and feeds the control loop with the most recent telemetry sample decoded
//! from a fixed-layout datagram stream.
//!
//! All access to the foreign address space goes through the narrow
//! [`memory::ForeignMemory`] capability, so every component here is ordinary
//! verified code over a mathematical map from addresses to bytes.

pub mod codec;
pub mod control;
pub mod detour;
pub mod memory;
pub mod patch;
pub mod resolver;
pub mod telemetry;
