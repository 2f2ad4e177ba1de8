//! Hosted backend: the kernel runs as a process of a host system, one host
//! thread per logical thread.
use vstd::prelude::*;

pub mod boot;
pub mod memory;
pub mod pci;
pub mod ring;
pub mod sync;
pub mod threads;
pub mod x86_io;

verus! {

/// Prints the call stack. The host's own tools do that better: nothing is printed.
pub fn print_backtrace() {
}

} // verus!
