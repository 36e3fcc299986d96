//! A single-precision floating-point number and one boolean flag, packed
//! into the four bytes of the number alone.
//!
//! The flag takes the place of the lowest fraction bit. A number whose
//! pattern has that bit at zero (every small integer, the zeros, the
//! infinities) is stored exactly; any other is stored one unit in the last
//! place nearer to zero. A NaN cannot be stored.
//!
//! Numbers cross this crate's boundary as bit patterns, the `u32` that
//! `f32::to_bits` gives and `f32::from_bits` takes.
//!
//! - [`bit_ops`]: one bit of a byte, set, cleared and tested.
//! - [`float_bits`]: the fields and classes of a pattern, and its bytes.
//! - [`codec`]: what packing does to a pattern, and what follows from it.
//! - [`packed`]: the four-byte type [`FP32WithFlag`] and its operations.
pub mod bit_ops;
pub mod codec;
pub mod float_bits;
pub mod packed;

pub use crate::packed::{FP32WithFlag, PackError};
