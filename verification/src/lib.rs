//! Cooperative kernel core: lock cells, interrupt-hold scopes, the baton-passing
//! thread scheduler, and the packet and command framing used by its drivers.
//!
//! Shared state is modelled as plain values that the caller owns. The host
//! environment keeps one such value behind whatever mutual exclusion it has
//! and asks this library what to do next at every suspension point.

pub mod arch;
pub mod sync;
pub mod network;
pub mod usb_msc;
