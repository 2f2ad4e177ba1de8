//! Virtual memory.
use crate::arch::hosted::memory::{PAddr, ProtectionMode, VAddr};
use vstd::prelude::*;

verus! {

/// An address space. The host provides the only one there is.
pub struct AddressSpace;

impl AddressSpace {
    /// The address space of the first process.
    pub fn pid0() -> AddressSpace {
        AddressSpace
    }

    /// A new address space for code in `cstart..cend`. The host always has one to give.
    pub fn new(cstart: usize, cend: usize) -> (r: Result<AddressSpace, ()>)
        ensures
            r is Ok,
    {
        Ok(AddressSpace)
    }
}

pub fn post_init() {
}

/// Maps a physical page for a short time. Nothing is mapped here: the result is the null address.
pub fn temp_map(pa: PAddr) -> (r: VAddr)
    ensures
        r == 0,
{
    0
}

pub fn temp_unmap(a: VAddr) {
}

/// The physical address behind `p`.
pub fn get_phys(p: VAddr) -> (r: PAddr)
    ensures
        r == 0,
{
    0
}

/// Whether `p` is backed by memory. All memory is taken to be valid.
pub fn is_reserved(p: VAddr) -> (r: bool)
    ensures
        r,
{
    true
}

/// The physical address and protection of the page at `p`.
pub fn get_info(p: VAddr) -> (r: Option<(PAddr, ProtectionMode)>)
    ensures
        r is None,
{
    None
}

/// Whether `size` bytes at `addr` lie in a fixed allocation.
pub fn is_fixed_alloc(addr: VAddr, size: usize) -> (r: bool)
    ensures
        !r,
{
    false
}

/// The fixed allocation that covers `count` pages at `p`, if there is one.
pub fn fixed_alloc(p: PAddr, count: usize) -> (r: Option<VAddr>)
    ensures
        r is None,
{
    None
}

/// Whether `a` can be mapped without allocating a page table.
pub fn can_map_without_alloc(a: VAddr) -> (r: bool)
    ensures
        !r,
{
    false
}

pub fn map(a: VAddr, p: PAddr, mode: ProtectionMode) {
}

pub fn reprotect(a: VAddr, mode: ProtectionMode) {
}

/// Unmaps the page at `a` and returns the physical address that was there.
pub fn unmap(a: VAddr) -> (r: Option<PAddr>)
    ensures
        r is None,
{
    None
}

} // verus!
