//! Fixed-width binary vectors, parsed from text, and the distance between two of them.
//!
//! A [`BitVec<N>`] holds exactly `N` bytes. A vector that was parsed from text holds the
//! ASCII codes of the digits `'0'` and `'1'`; on such vectors the byte-wise XOR sum that
//! [`BitVec::hamming_distance`] computes is the number of positions at which they differ.

pub mod bitvec;
pub mod digits;
pub mod distance;
pub mod error;
pub mod text;

pub use crate::bitvec::BitVec;
pub use crate::error::BitVecError;
