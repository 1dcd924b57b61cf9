//! Rayform content (`.rfc`) blocks, kept as raw bytes.

use vstd::prelude::*;

verus! {

/// Magic number of Rayform content.
pub const MAGIC: u32 = 0x3D23AFCF;

/// Rayform content: the bytes that follow the magic number.
pub struct Rfc {
    pub data: Vec<u8>,
}

} // verus!
