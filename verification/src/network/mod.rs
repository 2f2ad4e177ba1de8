//! Networking stack.

pub mod ipv4;
pub mod nic;
