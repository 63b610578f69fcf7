//! Typed views over a fixed-size, file-backed memory region.
//!
//! The verified part of the library decides every step of acquiring and
//! releasing a mapping: which calls are made, with which arguments, and which
//! result comes back to the caller. The system calls themselves, and the cast
//! of the mapped bytes to a typed reference, are made by the code that drives
//! these decisions.
pub mod builder;
pub mod error;
pub mod plan;
pub mod region;
pub mod session;
pub mod shared;
