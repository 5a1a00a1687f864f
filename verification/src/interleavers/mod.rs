//! Interleavers for the turbo decoder.

pub mod bijection;
pub mod lte;
pub mod qpp;
