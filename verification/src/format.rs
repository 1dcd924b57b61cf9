//! The file formats of the game's data, told apart by their magic number.

use vstd::prelude::*;

use crate::bytes::{push_u32_le, read_u32_le, u32_at, u32_bytes, ParseError};
use crate::rfc::{self, Rfc};
use crate::rfi::{self, Rfi};
use crate::rpk::{self, parse_rpk, rpk_bytes, Rpk, RpkV};

verus! {

/// How many bytes a block to be read spans.
pub struct Context {
    pub size: usize,
}

impl Context {
    /// This context with its size replaced by `size`.
    pub fn size(self, size: usize) -> (r: Self)
        ensures
            r.size == size,
    {
        Context { size }
    }
}

/// A block whose magic number is not one of a known format: all of its bytes,
/// magic number included.
pub struct Unknown {
    pub data: Vec<u8>,
}

/// A block of game data.
pub enum Format {
    Rfc(Rfc),
    Rfi(Rfi),
    Rpk(Rpk),
    Unknown(Unknown),
}

/// The mathematical value of a [`Format`].
pub enum FormatV {
    Rfc(Seq<u8>),
    Rfi(Seq<u8>),
    Rpk(RpkV),
    Unknown(Seq<u8>),
}

impl View for Format {
    type V = FormatV;

    open spec fn view(&self) -> FormatV {
        match self {
            Format::Rfc(r) => FormatV::Rfc(r.data@),
            Format::Rfi(r) => FormatV::Rfi(r.data@),
            Format::Rpk(r) => FormatV::Rpk(r@),
            Format::Unknown(u) => FormatV::Unknown(u.data@),
        }
    }
}

/// Whether `m` is the magic number of a format that the toolkit reads.
pub open spec fn is_known_magic(m: u32) -> bool {
    m == rfc::MAGIC || m == rfi::MAGIC || m == rpk::MAGIC
}

/// The block held in `s`, or `None` when `s` is shorter than a magic number
/// or ends before the package that it announces does.
pub open spec fn parse_format(s: Seq<u8>) -> Option<FormatV>
    decreases s.len(), 0nat,
{
    if s.len() < 4 {
        None
    } else {
        let m = u32_at(s, 0);
        if m == rfc::MAGIC {
            Some(FormatV::Rfc(s.skip(4)))
        } else if m == rfi::MAGIC {
            Some(FormatV::Rfi(s.skip(4)))
        } else if m == rpk::MAGIC {
            match parse_rpk(s.skip(4)) {
                Some(r) => Some(FormatV::Rpk(r)),
                None => None,
            }
        } else {
            Some(FormatV::Unknown(s))
        }
    }
}

/// The bytes written for a block.
pub open spec fn format_bytes(f: FormatV) -> Seq<u8> {
    match f {
        FormatV::Rfc(d) => u32_bytes(rfc::MAGIC) + d,
        FormatV::Rfi(d) => u32_bytes(rfi::MAGIC) + d,
        FormatV::Rpk(r) => u32_bytes(rpk::MAGIC) + rpk_bytes(r),
        FormatV::Unknown(d) => d,
    }
}

/// A block that is written and read back unchanged.
pub open spec fn is_well_formed_format(f: FormatV) -> bool {
    match f {
        FormatV::Rpk(r) => rpk::is_well_formed(r),
        FormatV::Unknown(d) => d.len() >= 4 && !is_known_magic(u32_at(d, 0)),
        _ => true,
    }
}

/// Copies `s[from..]` into a new vector.
fn tail(s: &[u8], from: usize) -> (r: Vec<u8>)
    requires
        from <= s@.len(),
    ensures
        r@ == s@.skip(from as int),
{
    let r = vstd::slice::slice_to_vec(vstd::slice::slice_subrange(s, from, s.len()));
    assert(r@ =~= s@.skip(from as int));
    r
}

impl Format {
    /// Reads the block `s`, telling its format by its magic number.
    pub fn parse(s: &[u8]) -> (r: Result<Format, ParseError>)
        ensures
            r is Ok <==> parse_format(s@) is Some,
            r matches Ok(f) ==> f@ == parse_format(s@).unwrap(),
            r matches Err(e) ==> e == ParseError::Incomplete,
        decreases s@.len(), 2nat,
    {
        let m = match read_u32_le(s, 0) {
            Some(m) => m,
            None => return Err(ParseError::Incomplete),
        };
        if m == rfc::MAGIC {
            Ok(Format::Rfc(Rfc { data: tail(s, 4) }))
        } else if m == rfi::MAGIC {
            Ok(Format::Rfi(Rfi { data: tail(s, 4) }))
        } else if m == rpk::MAGIC {
            let body = vstd::slice::slice_subrange(s, 4, s.len());
            assert(body@ =~= s@.skip(4));
            match Rpk::parse(body) {
                Ok(r) => Ok(Format::Rpk(r)),
                Err(e) => Err(e),
            }
        } else {
            let data = tail(s, 0);
            assert(data@ =~= s@);
            Ok(Format::Unknown(Unknown { data }))
        }
    }

    /// Writes the block: its magic number, then its contents.
    pub fn to_bytes(&self) -> (r: Vec<u8>)
        requires
            self matches Format::Rpk(p) ==> p.entries@.len() * crate::entry::ENTRY_LEN <= u32::MAX,
        ensures
            r@ == format_bytes(self@),
    {
        match self {
            Format::Rfc(c) => {
                let mut out = Vec::new();
                push_u32_le(&mut out, rfc::MAGIC);
                append(&mut out, &c.data);
                out
            },
            Format::Rfi(c) => {
                let mut out = Vec::new();
                push_u32_le(&mut out, rfi::MAGIC);
                append(&mut out, &c.data);
                out
            },
            Format::Rpk(p) => {
                let mut out = Vec::new();
                push_u32_le(&mut out, rpk::MAGIC);
                let body = p.to_bytes();
                append(&mut out, &body);
                out
            },
            Format::Unknown(u) => {
                let mut out = Vec::new();
                append(&mut out, &u.data);
                assert(out@ =~= u.data@);
                out
            },
        }
    }
}

/// Appends `b` to `out`.
fn append(out: &mut Vec<u8>, b: &Vec<u8>)
    ensures
        final(out)@ == old(out)@ + b@,
{
    let ghost before = out@;
    let mut j: usize = 0;
    while j < b.len()
        invariant
            j <= b.len(),
            out@ == before + b@.take(j as int),
        decreases b.len() - j,
    {
        out.push(b[j]);
        assert(b@.take(j + 1) =~= b@.take(j as int).push(b@[j as int]));
        j = j + 1;
    }
    assert(b@.take(b.len() as int) =~= b@);
}

/// A well-formed block is read back from its bytes exactly as written.
pub proof fn lemma_format_roundtrip(f: FormatV)
    requires
        is_well_formed_format(f),
    ensures
        parse_format(format_bytes(f)) == Some(f),
{
    let b = format_bytes(f);
    match f {
        FormatV::Rfc(d) => {
            crate::bytes::lemma_u32_roundtrip(rfc::MAGIC);
            assert(u32_at(b, 0) == u32_at(u32_bytes(rfc::MAGIC), 0));
            assert(b.skip(4) =~= d);
        },
        FormatV::Rfi(d) => {
            crate::bytes::lemma_u32_roundtrip(rfi::MAGIC);
            assert(u32_at(b, 0) == u32_at(u32_bytes(rfi::MAGIC), 0));
            assert(b.skip(4) =~= d);
        },
        FormatV::Rpk(r) => {
            crate::bytes::lemma_u32_roundtrip(rpk::MAGIC);
            assert(u32_at(b, 0) == u32_at(u32_bytes(rpk::MAGIC), 0));
            assert(b.skip(4) =~= rpk_bytes(r));
            rpk::lemma_rpk_roundtrip(r);
        },
        FormatV::Unknown(d) => {},
    }
}

} // verus!
