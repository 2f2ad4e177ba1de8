//! What the boot loader would have handed over. A hosted kernel has no boot
//! loader: the command line is empty, there is no frame buffer, and the memory
//! map is one empty range.
use crate::arch::hosted::memory::{MemoryMapEnt, MemoryState, PAddr};
use vstd::prelude::*;

verus! {

/// A video mode that the boot loader has set up.
#[derive(Debug, Clone, Copy, PartialEq, Eq, Structural)]
pub struct VideoMode {
    pub width: u16,
    pub height: u16,
    pub pitch: usize,
    pub base: PAddr,
}

/// The kernel command line.
pub fn get_boot_string() -> (r: &'static str)
    ensures
        r@ == Seq::<char>::empty(),
{
    proof {
        reveal_strlit("");
    }
    let r = "";
    assert(r@ =~= Seq::<char>::empty());
    r
}

/// The video mode that was set up at boot, if one was.
pub fn get_video_mode() -> (r: Option<VideoMode>)
    ensures
        r is None,
{
    None
}

/// The memory map: one free range of no bytes at address zero.
pub fn get_memory_map() -> (r: Vec<MemoryMapEnt>)
    ensures
        r@ == seq![MemoryMapEnt { start: 0, size: 0, state: MemoryState::Free, domain: 0 }],
{
    let mut map: Vec<MemoryMapEnt> = Vec::new();
    map.push(MemoryMapEnt { start: 0, size: 0, state: MemoryState::Free, domain: 0 });
    assert(map@ =~= seq![
        MemoryMapEnt { start: 0, size: 0, state: MemoryState::Free, domain: 0 },
    ]);
    map
}

} // verus!
