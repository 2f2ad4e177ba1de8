//! Memory management of the hosted backend: the host owns the address space,
//! so every query has a fixed answer.
use vstd::prelude::*;

pub mod addresses;
pub mod phys;
pub mod virt;

verus! {

/// A physical address.
pub type PAddr = u64;

/// A virtual address.
pub type VAddr = usize;

pub const PAGE_SIZE: usize = 4096;

/// How a page may be accessed.
#[derive(Clone, Copy, PartialEq, Eq, Structural, Debug)]
pub enum ProtectionMode {
    Unmapped,
    KernelRO,
    KernelRW,
    KernelRX,
    UserRO,
    UserRW,
    UserRX,
    UserCOW,
    UserRWX,
}

/// What a range of physical memory is used for.
#[derive(Clone, Copy, PartialEq, Eq, Structural, Debug)]
pub enum MemoryState {
    Reserved,
    Used,
    Free,
}

/// One range of the boot memory map.
#[derive(Clone, Copy, PartialEq, Eq, Structural, Debug)]
pub struct MemoryMapEnt {
    pub start: u64,
    pub size: u64,
    pub state: MemoryState,
    pub domain: u16,
}

} // verus!
