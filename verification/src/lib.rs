//! Fixed-dimension numeric vectors packed into SIMD-style register chunks.
//!
//! A `Vector` of dimension `D` stores its `D` elements in one or more
//! register-width chunks: the lane width is the smallest power of two that
//! covers `D`, capped at the widest supported register (64 lanes), and the
//! final chunk is zero-padded.  Elementwise arithmetic and horizontal
//! reductions work chunk by chunk on that packed form; pad lanes never
//! influence any result observed at indices below `D`.

pub mod codec;
pub mod engine;
pub mod lanes;
pub mod matrix;
pub mod ops;
pub mod reduce;
mod vector;

pub use lanes::len;
pub use lanes::mpow2;
pub use vector::Vector;
pub use vector::VectorError;
