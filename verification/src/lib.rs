//! Measures the runtime cost of memory-safety strategies for sandboxed code.
//!
//! A small guest program, hosted inside a virtual machine, exposes an
//! allocation and conversion interface; the host-side driver marshals a fixed
//! workload (parsing the WebAssembly text format into a binary module) across
//! the sandbox boundary under several isolation configurations and compares
//! the elapsed time of each against a native baseline.
//!
//! The verified core is the guest's allocation and conversion interface
//! ([`guest`]), the driver's per-configuration marshalling protocol
//! ([`driver`]), the configuration matrix ([`config`]) and the relative
//! overhead computation ([`timing`]). The virtual-machine engine itself, file
//! loading and table printing are unverified plumbing that lives outside this
//! library.

pub mod config;
pub mod driver;
pub mod guest;
pub mod timing;
pub mod workload;

use vstd::prelude::*;

verus! {

/// A fatal fault raised by the guest or by the marshalling protocol.
///
/// The benchmark assumes a known-good fixed input, so every fault is fatal to
/// the whole run: there is no retry and no partial report.
#[derive(Clone, Copy, Debug, PartialEq, Eq, Structural)]
pub enum GuestFault {
    /// The workload bytes did not parse as the textual input format.
    Malformed,
    /// The workload bytes were not a well-formed binary module.
    Invalid,
    /// The guest arena could not reserve enough linear memory.
    OutOfMemory,
}

} // verus!
