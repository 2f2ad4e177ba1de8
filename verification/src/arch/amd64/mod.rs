//! Bare-metal x86-64 backend.

pub mod apic;
pub mod sync;
