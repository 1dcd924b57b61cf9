//! The Rayform database (`.rdb`): a table of 16-byte rows followed by a block
//! of data.

use vstd::prelude::*;

use crate::bytes::{push_u32_le, read_u32_le, u32_at, u32_bytes, ParseError};

verus! {

/// The flag of a database row.
#[derive(Debug, Clone, Copy, PartialEq, Eq, Structural)]
pub enum Flags {
    A,
    B,
}

/// The flag that a stored code stands for: 1 is `A`, 2 is `B`.
pub open spec fn flags_of(code: u32) -> Option<Flags> {
    if code == 1 {
        Some(Flags::A)
    } else if code == 2 {
        Some(Flags::B)
    } else {
        None
    }
}

/// The code stored for a flag.
pub open spec fn code_of(f: Flags) -> u32 {
    match f {
        Flags::A => 1,
        Flags::B => 2,
    }
}

/// One row of a database table.
#[derive(Debug, Clone, Copy, PartialEq, Eq, Structural)]
pub struct Entry {
    id: u32,
    flags: Flags,
    offset: u32,
    size: u32,
}

impl Entry {
    pub fn new(id: u32, flags: Flags, offset: u32, size: u32) -> (r: Entry)
        ensures
            r.spec_id() == id && r.spec_flags() == flags && r.spec_offset() == offset
                && r.spec_size() == size,
    {
        Entry { id, flags, offset, size }
    }

    pub closed spec fn spec_id(&self) -> u32 {
        self.id
    }

    pub closed spec fn spec_flags(&self) -> Flags {
        self.flags
    }

    pub closed spec fn spec_offset(&self) -> u32 {
        self.offset
    }

    pub closed spec fn spec_size(&self) -> u32 {
        self.size
    }
}

/// Length of one table row.
pub const ROW_LEN: usize = 16;

/// A Rayform database: its table and its data.
pub struct Rdb {
    pub entries: Vec<Entry>,
    pub data: Vec<u8>,
}

/// The number of rows that a table length announces: one less than the
/// number of 16-byte rows it spans.
pub open spec fn rdb_rows(len: u32) -> int {
    len / 16 - 1
}

/// What reading the first `n` rows of a table starting at byte 4 gives.
pub closed spec fn rdb_rows_at(s: Seq<u8>, n: int) -> Result<Seq<Entry>, ParseError>
    decreases n,
{
    if n <= 0 {
        Ok(Seq::empty())
    } else {
        match rdb_rows_at(s, n - 1) {
            Err(e) => Err(e),
            Ok(es) => {
                let pos = 4 + ROW_LEN * (n - 1);
                if pos + 8 > s.len() {
                    Err(ParseError::Incomplete)
                } else {
                    match flags_of(u32_at(s, pos + 4)) {
                        None => Err(ParseError::InvalidValue),
                        Some(f) => if pos + ROW_LEN > s.len() {
                            Err(ParseError::Incomplete)
                        } else {
                            Ok(
                                es.push(
                                    Entry {
                                        id: u32_at(s, pos),
                                        flags: f,
                                        offset: u32_at(s, pos + 8),
                                        size: u32_at(s, pos + 12),
                                    },
                                ),
                            )
                        },
                    }
                }
            },
        }
    }
}

/// What reading a database of `size` data bytes from `s` gives; a table
/// length under one row is refused.
pub open spec fn parse_rdb(s: Seq<u8>, size: nat) -> Result<(Seq<Entry>, Seq<u8>), ParseError> {
    if s.len() < 4 {
        Err(ParseError::Incomplete)
    } else if u32_at(s, 0) < ROW_LEN {
        Err(ParseError::Incomplete)
    } else {
        let n = rdb_rows(u32_at(s, 0));
        match rdb_rows_at(s, n) {
            Err(e) => Err(e),
            Ok(es) => {
                let start = 4 + ROW_LEN * n;
                if start + size > s.len() {
                    Err(ParseError::Incomplete)
                } else {
                    Ok((es, s.subrange(start, start + size)))
                }
            },
        }
    }
}

/// The 16 bytes written for a row.
pub closed spec fn row_bytes(e: Entry) -> Seq<u8> {
    u32_bytes(e.id) + u32_bytes(code_of(e.flags)) + u32_bytes(e.offset) + u32_bytes(e.size)
}

/// The rows written for a table, first to last.
pub open spec fn rows_bytes(es: Seq<Entry>) -> Seq<u8>
    decreases es.len(),
{
    if es.len() == 0 {
        Seq::empty()
    } else {
        rows_bytes(es.drop_last()) + row_bytes(es.last())
    }
}

/// The bytes written for a database: the table length (16 bytes per row
/// plus one), the rows, the data.
pub open spec fn rdb_bytes(es: Seq<Entry>, data: Seq<u8>) -> Seq<u8> {
    u32_bytes((es.len() * ROW_LEN + 1) as u32) + rows_bytes(es) + data
}

proof fn lemma_rows_fail_monotone(s: Seq<u8>, i: int, n: int)
    requires
        0 <= i <= n,
        rdb_rows_at(s, i) is Err,
    ensures
        rdb_rows_at(s, n) == rdb_rows_at(s, i),
    decreases n - i,
{
    if i < n {
        lemma_rows_fail_monotone(s, i, n - 1);
    }
}

impl Rdb {
    /// Reads a database with `size` bytes of data.
    pub fn parse(s: &[u8], size: usize) -> (r: Result<Rdb, ParseError>)
        ensures
            r matches Ok(d) ==> parse_rdb(s@, size as nat) == Ok::<(Seq<Entry>, Seq<u8>), ParseError>((d.entries@, d.data@)),
            r matches Err(e) ==> parse_rdb(s@, size as nat) == Err::<(Seq<Entry>, Seq<u8>), ParseError>(e),
    {
        let len = match read_u32_le(s, 0) {
            Some(v) => v,
            None => return Err(ParseError::Incomplete),
        };
        if len < 16 {
            return Err(ParseError::Incomplete);
        }
        let n = (len / 16 - 1) as usize;
        let mut entries: Vec<Entry> = Vec::new();
        let mut i: usize = 0;
        while i < n
            invariant
                n == rdb_rows(u32_at(s@, 0)),
                n <= 0x1000_0000,
                i <= n,
                rdb_rows_at(s@, i as int) == Ok::<Seq<Entry>, ParseError>(entries@),
            decreases n - i,
        {
            let pos = 4 + 16 * i;
            let code = match read_u32_le(s, pos + 4) {
                Some(c) => c,
                None => {
                    proof {
                        lemma_rows_fail_monotone(s@, i + 1, n as int);
                    }
                    return Err(ParseError::Incomplete);
                },
            };
            let flags = if code == 1 {
                Flags::A
            } else if code == 2 {
                Flags::B
            } else {
                proof {
                    lemma_rows_fail_monotone(s@, i + 1, n as int);
                }
                return Err(ParseError::InvalidValue);
            };
            if s.len() < pos + 16 {
                proof {
                    lemma_rows_fail_monotone(s@, i + 1, n as int);
                }
                return Err(ParseError::Incomplete);
            }
            let e = Entry {
                id: read_u32_le(s, pos).unwrap(),
                flags,
                offset: read_u32_le(s, pos + 8).unwrap(),
                size: read_u32_le(s, pos + 12).unwrap(),
            };
            entries.push(e);
            i = i + 1;
        }
        let start = 4 + 16 * n;
        if start > s.len() || s.len() - start < size {
            return Err(ParseError::Incomplete);
        }
        let data = vstd::slice::slice_to_vec(vstd::slice::slice_subrange(s, start, start + size));
        Ok(Rdb { entries, data })
    }

    /// Writes the database.
    pub fn to_bytes(&self) -> (r: Vec<u8>)
        requires
            self.entries@.len() * ROW_LEN + 1 <= u32::MAX,
        ensures
            r@ == rdb_bytes(self.entries@, self.data@),
    {
        let mut out: Vec<u8> = Vec::new();
        push_u32_le(&mut out, (self.entries.len() * 16 + 1) as u32);
        let ghost head = out@;
        let mut i: usize = 0;
        assert(self.entries@.take(0) =~= Seq::<Entry>::empty());
        assert(out@ =~= head + rows_bytes(self.entries@.take(0)));
        while i < self.entries.len()
            invariant
                i <= self.entries.len(),
                out@ == head + rows_bytes(self.entries@.take(i as int)),
            decreases self.entries.len() - i,
        {
            let e = self.entries[i];
            push_u32_le(&mut out, e.id);
            let code: u32 = match e.flags {
                Flags::A => 1,
                Flags::B => 2,
            };
            push_u32_le(&mut out, code);
            push_u32_le(&mut out, e.offset);
            push_u32_le(&mut out, e.size);
            assert(self.entries@.take(i + 1).drop_last() =~= self.entries@.take(i as int));
            assert(out@ =~= head + rows_bytes(self.entries@.take(i + 1)));
            i = i + 1;
        }
        assert(self.entries@.take(self.entries.len() as int) =~= self.entries@);
        let mut k: usize = 0;
        let ghost mid = out@;
        while k < self.data.len()
            invariant
                k <= self.data.len(),
                out@ == mid + self.data@.take(k as int),
            decreases self.data.len() - k,
        {
            out.push(self.data[k]);
            assert(self.data@.take(k + 1) =~= self.data@.take(k as int).push(self.data@[k as int]));
            k = k + 1;
        }
        assert(self.data@.take(self.data.len() as int) =~= self.data@);
        out
    }
}

proof fn lemma_u32_in(s: Seq<u8>, p: int, v: u32)
    requires
        0 <= p,
        p + 4 <= s.len(),
        s.subrange(p, p + 4) == u32_bytes(v),
    ensures
        u32_at(s, p) == v,
{
    crate::bytes::lemma_u32_roundtrip(v);
    let b = u32_bytes(v);
    assert(s[p] == b[0] && s[p + 1] == b[1] && s[p + 2] == b[2] && s[p + 3] == b[3]) by {
        assert(s.subrange(p, p + 4)[0] == s[p]);
        assert(s.subrange(p, p + 4)[1] == s[p + 1]);
        assert(s.subrange(p, p + 4)[2] == s[p + 2]);
        assert(s.subrange(p, p + 4)[3] == s[p + 3]);
    }
}

proof fn lemma_rows_bytes_len(es: Seq<Entry>)
    ensures
        rows_bytes(es).len() == ROW_LEN * es.len(),
    decreases es.len(),
{
    if es.len() > 0 {
        lemma_rows_bytes_len(es.drop_last());
    }
}

proof fn lemma_rows_bytes_at(es: Seq<Entry>, k: int)
    requires
        0 <= k < es.len(),
    ensures
        rows_bytes(es).subrange(ROW_LEN * k, ROW_LEN * k + ROW_LEN) == row_bytes(es[k]),
    decreases es.len(),
{
    let a = rows_bytes(es.drop_last());
    lemma_rows_bytes_len(es.drop_last());
    if k < es.len() - 1 {
        lemma_rows_bytes_at(es.drop_last(), k);
        assert((a + row_bytes(es.last())).subrange(ROW_LEN * k, ROW_LEN * k + ROW_LEN) =~= a.subrange(
            ROW_LEN * k,
            ROW_LEN * k + ROW_LEN,
        ));
    } else {
        assert((a + row_bytes(es.last())).subrange(ROW_LEN * k, ROW_LEN * k + ROW_LEN) =~= row_bytes(
            es.last(),
        ));
    }
}

proof fn lemma_rows_read(s: Seq<u8>, es: Seq<Entry>, data: Seq<u8>, k: int)
    requires
        0 <= k < es.len(),
        s.len() == 4 + ROW_LEN * es.len() + data.len(),
        forall|j: int| 0 <= j < es.len() ==> s.subrange(4 + ROW_LEN * j, 4 + ROW_LEN * j + ROW_LEN)
            == #[trigger] row_bytes(es[j]),
    ensures
        rdb_rows_at(s, k) == Ok::<Seq<Entry>, ParseError>(es.take(k)),
    decreases k,
{
    if k > 0 {
        lemma_rows_read(s, es, data, k - 1);
        let pos = 4 + ROW_LEN * (k - 1);
        let e = es[k - 1];
        let r = s.subrange(pos, pos + ROW_LEN);
        assert(r == row_bytes(e));
        assert(r.subrange(0, 4) =~= u32_bytes(e.id));
        assert(r.subrange(4, 8) =~= u32_bytes(code_of(e.flags)));
        assert(r.subrange(8, 12) =~= u32_bytes(e.offset));
        assert(r.subrange(12, 16) =~= u32_bytes(e.size));
        assert(s.subrange(pos, pos + 4) =~= r.subrange(0, 4));
        assert(s.subrange(pos + 4, pos + 8) =~= r.subrange(4, 8));
        assert(s.subrange(pos + 8, pos + 12) =~= r.subrange(8, 12));
        assert(s.subrange(pos + 12, pos + 16) =~= r.subrange(12, 16));
        lemma_u32_in(s, pos, e.id);
        lemma_u32_in(s, pos + 4, code_of(e.flags));
        lemma_u32_in(s, pos + 8, e.offset);
        lemma_u32_in(s, pos + 12, e.size);
        assert(flags_of(code_of(e.flags)) == Some(e.flags));
        assert(es.take(k) =~= es.take(k - 1).push(e));
    } else {
        assert(es.take(0) =~= Seq::<Entry>::empty());
    }
}

/// What writing, then reading, a database gives: the table length written
/// announces one row fewer than it holds, so every row but the last is read
/// back, and the last row's 16 bytes are read as the start of the data.
pub proof fn lemma_rdb_write_read(es: Seq<Entry>, data: Seq<u8>)
    requires
        es.len() >= 1,
        es.len() * ROW_LEN + 1 <= u32::MAX,
    ensures
        parse_rdb(rdb_bytes(es, data), (ROW_LEN + data.len()) as nat) == Ok::<
            (Seq<Entry>, Seq<u8>),
            ParseError,
        >((es.drop_last(), row_bytes(es.last()) + data)),
{
    let n = es.len() as int;
    let s = rdb_bytes(es, data);
    let head = u32_bytes((n * ROW_LEN + 1) as u32);
    let rows = rows_bytes(es);
    lemma_rows_bytes_len(es);
    assert(s.subrange(0, 4) =~= head);
    lemma_u32_in(s, 0, (n * ROW_LEN + 1) as u32);
    assert(rdb_rows(u32_at(s, 0)) == n - 1);
    assert forall|k: int| 0 <= k < n implies s.subrange(4 + ROW_LEN * k, 4 + ROW_LEN * k + ROW_LEN)
        == #[trigger] row_bytes(es[k]) by {
        lemma_rows_bytes_at(es, k);
        assert(s.subrange(4 + ROW_LEN * k, 4 + ROW_LEN * k + ROW_LEN) =~= rows.subrange(
            ROW_LEN * k,
            ROW_LEN * k + ROW_LEN,
        ));
    }
    lemma_rows_read(s, es, data, n - 1);
    assert(es.take(n - 1) =~= es.drop_last());
    let start = 4 + ROW_LEN * (n - 1);
    assert(s.subrange(start, start + ROW_LEN + data.len()) =~= row_bytes(es.last()) + data) by {
        assert(s.subrange(start, start + ROW_LEN) == row_bytes(es[n - 1]));
        assert(s.subrange(start + ROW_LEN, s.len() as int) =~= data);
    }
}

} // verus!
