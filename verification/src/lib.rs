//! Fixed-point turbo decoding for the UMTS/LTE family of codes: a max-log-MAP
//! BCJR decoder on the eight-state constituent trellis, the outer turbo
//! iteration, the QPP interleaver with its LTE parameters, and the four-lane
//! signed-byte arithmetic that the trellis code is written against.

pub mod bcjr;
pub mod dword;
pub mod interleavers;
pub mod llr;
pub mod simd;
pub mod symbol;
pub mod trellises;
pub mod turbo;

pub use crate::bcjr::BcjrDecoder;
pub use crate::llr::Llr;
pub use crate::turbo::TurboDecoder;
