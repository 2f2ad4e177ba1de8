//! PCI configuration space. The host shows no PCI devices: every read gives zero.
use vstd::prelude::*;

verus! {

/// Reads the configuration word at the address `a`.
pub fn read(a: u32) -> (r: u32)
    ensures
        r == 0,
{
    0
}

/// Writes the configuration word at the address `a`.
pub fn write(a: u32, v: u32) {
}

} // verus!
