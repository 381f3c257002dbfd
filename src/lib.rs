//! Compact sets of bytes or ASCII characters, stored as fixed arrays of
//! 64-bit masks, and stacks of up to eight such sets packed into one
//! byte-indexed lookup table.
pub mod bit;
pub mod set;
pub mod stack;

pub use crate::bit::{Bit, B0, B1, B2, B3, B4, B5, B6, B7};
pub use crate::set::{
    AnyByteSet, AsciiSet, ByteSet, ASCII_RANGE_LEN, BITS_PER_CHUNK, CHUNKS, CHUNK_SIZE,
};
pub use crate::stack::{AnyByteStack, AsciiStack, ByteStack};
