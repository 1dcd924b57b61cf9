//! Rayform image headers: dimensions, compression and the pixel data that
//! follows the 32-byte header.

use vstd::prelude::*;

use crate::bytes::{read_u32_le, u32_at, ParseError};
use crate::format::is_known_magic;

verus! {

/// Why an image could not be unpacked.
pub enum Error {
    /// The image is run-length encoded, which is not supported.
    UnsupportedRLE(String),
    /// The image ends before its pixel data does.
    Incomplete,
}

/// The block compression of an image, with the code that the header holds.
#[derive(Debug, Clone, Copy, PartialEq, Eq, Structural)]
pub enum S3TC {
    DXT1(u32),
    DXT5(u32),
    BC4U(u32),
    BC5U(u32),
    RGB(u32),
}

/// The compression that a header code stands for, if any.
pub open spec fn s3tc_of(n: u32) -> Option<S3TC> {
    if n == 0x813BC600 || n == 0x823BC600 || n == 0x01004200 {
        Some(S3TC::DXT1(n))
    } else if n == 0x817BE608 {
        Some(S3TC::DXT5(n))
    } else if n == 0x0111C600 || n == 0x01006208 || n == 0x813B4200 || n == 0x01114200 || n
        == 0x01002008 || n == 0x0100E608 || n == 0x11118400 {
        Some(S3TC::BC4U(n))
    } else if n == 0x927B8400 || n == 0x827BA408 || n == 0x1111C600 || n == 0x827BE608 {
        Some(S3TC::BC5U(n))
    } else if n == 0x0100C600 {
        Some(S3TC::RGB(n))
    } else {
        None
    }
}

/// The compression of each header code: 0x813BC600, 0x823BC600 and
/// 0x01004200 are DXT1; 0x817BE608 is DXT5; 0x0111C600, 0x01006208,
/// 0x813B4200, 0x01114200, 0x01002008, 0x0100E608 and 0x11118400 are BC4U;
/// 0x927B8400, 0x827BA408, 0x1111C600 and 0x827BE608 are BC5U; 0x0100C600 is
/// RGB; every other code names no compression. Each compression carries the
/// code it was read from.
pub proof fn lemma_s3tc_codes(n: u32)
    ensures
        (n == 0x813BC600 || n == 0x823BC600 || n == 0x01004200) <==> s3tc_of(n) == Some(S3TC::DXT1(n)),
        n == 0x817BE608 <==> s3tc_of(n) == Some(S3TC::DXT5(n)),
        (n == 0x0111C600 || n == 0x01006208 || n == 0x813B4200 || n == 0x01114200 || n == 0x01002008
            || n == 0x0100E608 || n == 0x11118400) <==> s3tc_of(n) == Some(S3TC::BC4U(n)),
        (n == 0x927B8400 || n == 0x827BA408 || n == 0x1111C600 || n == 0x827BE608) <==> s3tc_of(n)
            == Some(S3TC::BC5U(n)),
        n == 0x0100C600 <==> s3tc_of(n) == Some(S3TC::RGB(n)),
        s3tc_of(n) is None <==> !(n == 0x813BC600 || n == 0x823BC600 || n == 0x01004200 || n
            == 0x817BE608 || n == 0x0111C600 || n == 0x01006208 || n == 0x813B4200 || n
            == 0x01114200 || n == 0x01002008 || n == 0x0100E608 || n == 0x11118400 || n
            == 0x927B8400 || n == 0x827BA408 || n == 0x1111C600 || n == 0x827BE608 || n
            == 0x0100C600),
{
}

impl S3TC {
    /// The compression that a header code stands for.
    pub fn try_from(n: u32) -> (r: Result<S3TC, &'static str>)
        ensures
            r is Ok <==> s3tc_of(n) is Some,
            r matches Ok(c) ==> s3tc_of(n) == Some(c),
            r matches Err(m) ==> m@ == "Cannot get S3TC from number"@,
    {
        match n {
            0x813BC600 => Ok(S3TC::DXT1(0x813BC600)),
            0x823BC600 => Ok(S3TC::DXT1(0x823BC600)),
            0x01004200 => Ok(S3TC::DXT1(0x01004200)),
            0x817BE608 => Ok(S3TC::DXT5(0x817BE608)),
            0x0111C600 => Ok(S3TC::BC4U(0x0111C600)),
            0x01006208 => Ok(S3TC::BC4U(0x01006208)),
            0x813B4200 => Ok(S3TC::BC4U(0x813B4200)),
            0x01114200 => Ok(S3TC::BC4U(0x01114200)),
            0x01002008 => Ok(S3TC::BC4U(0x01002008)),
            0x0100E608 => Ok(S3TC::BC4U(0x0100E608)),
            0x11118400 => Ok(S3TC::BC4U(0x11118400)),
            0x927B8400 => Ok(S3TC::BC5U(0x927B8400)),
            0x827BA408 => Ok(S3TC::BC5U(0x827BA408)),
            0x1111C600 => Ok(S3TC::BC5U(0x1111C600)),
            0x827BE608 => Ok(S3TC::BC5U(0x827BE608)),
            0x0100C600 => Ok(S3TC::RGB(0x0100C600)),
            _ => Err("Cannot get S3TC from number"),
        }
    }

}

/// The 28 bytes of an image header that follow its magic number.
#[derive(Debug, Clone, Copy, PartialEq, Eq, Structural)]
pub struct Header {
    pub width: u32,
    pub height: u32,
    pub _unknown1: u32,
    pub s3tc: u32,
    pub _unknown2: u32,
    pub flags: u32,
    pub size: u32,
}

/// Flag of a run-length encoded image.
pub const RLE_FLAG: u32 = 0x40000000;

/// Length of an image header, magic number included.
pub const HEADER_LEN: usize = 32;

/// The header stored at the start of `s`.
pub open spec fn header_at(s: Seq<u8>) -> Header {
    Header {
        width: u32_at(s, 4),
        height: u32_at(s, 8),
        _unknown1: u32_at(s, 12),
        s3tc: u32_at(s, 16),
        _unknown2: u32_at(s, 20),
        flags: u32_at(s, 24),
        size: u32_at(s, 28),
    }
}

/// Bytes that do not start with the magic number of a known format other
/// than an image's.
pub open spec fn may_be_image(s: Seq<u8>) -> bool {
    s.len() >= 4 ==> (u32_at(s, 0) == crate::rfi::MAGIC || !is_known_magic(u32_at(s, 0)))
}

/// What reading the header of `s` gives.
pub open spec fn parse_header(s: Seq<u8>) -> Result<Header, ParseError> {
    if s.len() < 4 {
        Err(ParseError::Incomplete)
    } else if u32_at(s, 0) != crate::rfi::MAGIC {
        Err(ParseError::InvalidValue)
    } else if s.len() < HEADER_LEN {
        Err(ParseError::Incomplete)
    } else {
        Ok(header_at(s))
    }
}

impl Header {
    /// Reads the header of the image `s`.
    ///
    /// An unknown magic number is refused as an invalid value.
    pub fn new(s: &[u8]) -> (r: Result<Header, ParseError>)
        requires
            may_be_image(s@),
        ensures
            r == parse_header(s@),
    {
        let magic = match read_u32_le(s, 0) {
            Some(m) => m,
            None => return Err(ParseError::Incomplete),
        };
        if magic != crate::rfi::MAGIC {
            return Err(ParseError::InvalidValue);
        }
        if s.len() < HEADER_LEN {
            return Err(ParseError::Incomplete);
        }
        Ok(Header {
            width: read_u32_le(s, 4).unwrap(),
            height: read_u32_le(s, 8).unwrap(),
            _unknown1: read_u32_le(s, 12).unwrap(),
            s3tc: read_u32_le(s, 16).unwrap(),
            _unknown2: read_u32_le(s, 20).unwrap(),
            flags: read_u32_le(s, 24).unwrap(),
            size: read_u32_le(s, 28).unwrap(),
        })
    }

    /// Whether the image is run-length encoded.
    pub fn is_rle(&self) -> (r: bool)
        ensures
            r == (self.flags & RLE_FLAG == RLE_FLAG),
    {
        self.flags & RLE_FLAG == RLE_FLAG
    }
}

/// A Rayform image, known by its header.
pub struct RFI {
    pub header: Header,
}

impl RFI {
    /// Reads the image `s`'s header.
    pub fn new(s: &[u8]) -> (r: Result<Self, ParseError>)
        requires
            may_be_image(s@),
        ensures
            r matches Ok(i) ==> parse_header(s@) == Ok::<Header, ParseError>(i.header),
            r matches Err(e) ==> parse_header(s@) == Err::<Header, ParseError>(e),
    {
        match Header::new(s) {
            Ok(header) => Ok(RFI { header }),
            Err(e) => Err(e),
        }
    }

    /// The pixel data of the image `s`: the `size` bytes after the header.
    pub fn pixel_data(&self, s: &[u8]) -> (r: Result<Vec<u8>, Error>)
        ensures
            self.header.flags & RLE_FLAG == RLE_FLAG ==> r matches Err(Error::UnsupportedRLE(_)),
            self.header.flags & RLE_FLAG != RLE_FLAG ==> (r is Ok <==> HEADER_LEN
                + self.header.size <= s@.len()),
            r matches Ok(d) ==> d@ == s@.subrange(
                HEADER_LEN as int,
                HEADER_LEN + self.header.size,
            ),
            r matches Err(e) ==> (e is Incomplete <==> self.header.flags & RLE_FLAG != RLE_FLAG),
            r matches Err(Error::UnsupportedRLE(m)) ==> m@ == "RLE not implemented yet"@,
    {
        if self.header.is_rle() {
            return Err(Error::UnsupportedRLE("RLE not implemented yet".to_owned()));
        }
        let size = self.header.size as usize;
        if s.len() < HEADER_LEN || s.len() - HEADER_LEN < size {
            return Err(Error::Incomplete);
        }
        Ok(
            vstd::slice::slice_to_vec(
                vstd::slice::slice_subrange(s, HEADER_LEN, HEADER_LEN + size),
            ),
        )
    }
}

} // verus!
