//! Architecture backends.

pub mod amd64;
pub mod hosted;
