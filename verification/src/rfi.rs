//! Rayform image (`.rfi`) blocks, kept as raw bytes.

use vstd::prelude::*;

verus! {

/// Magic number of a Rayform image.
pub const MAGIC: u32 = 0x1D2D3DC6;

/// Rayform image: the bytes that follow the magic number.
pub struct Rfi {
    pub data: Vec<u8>,
}

} // verus!
