//! x86 I/O ports. The host has none: every read gives zero, every write is lost.
use vstd::prelude::*;

verus! {

pub fn inb(p: u16) -> (r: u8)
    ensures
        r == 0,
{
    0
}

pub fn inw(p: u16) -> (r: u16)
    ensures
        r == 0,
{
    0
}

pub fn inl(p: u16) -> (r: u32)
    ensures
        r == 0,
{
    0
}

pub fn outb(p: u16, v: u8) {
}

pub fn outw(p: u16, v: u16) {
}

pub fn outl(p: u16, v: u32) {
}

} // verus!
