//! Philox4x32: a deterministic counter-based pseudorandom generator.
//!
//! The output stream is a pure function of a 2-word key and a 4-word
//! little-endian counter: each block is produced by a fixed number of
//! multiply/xor mixing rounds, and the counter advances by one per block.

/// Explicit little-endian byte encoding of output blocks.
pub mod bytes;
/// The 4-word little-endian counter and its numeric model.
pub mod counter;
/// The round function, the key schedule, and the generator.
pub mod philox;
/// The published reference test vectors and their line format.
pub mod vectors;

pub use counter::Counter;
pub use philox::{generate, mulhilo, HiLo, Philox, Philox4x32_10};
