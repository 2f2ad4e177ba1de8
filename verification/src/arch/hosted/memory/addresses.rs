//! Layout of the virtual address space.
use vstd::prelude::*;

verus! {

pub const STACK_SIZE: usize = 5 * 0x1000;

pub const USER_END: usize = 0x8000_0000;

pub const STACKS_BASE: usize = 0;

pub const STACKS_END: usize = 0;

pub const HARDWARE_BASE: usize = 0;

pub const HARDWARE_END: usize = 0;

pub const HEAP_START: usize = 0;

pub const HEAP_END: usize = 0;

pub const BUMP_START: usize = 0;

pub const BUMP_END: usize = 0;

/// Whether `addr` lies in the part of the address space that all address
/// spaces share. The hosted backend has no such part.
pub fn is_global(addr: usize) -> (r: bool)
    ensures
        !r,
{
    false
}

} // verus!
