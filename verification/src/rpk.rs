//! The Rayform package (`.rpk`): a table of named entries followed by the
//! entries' bytes, stored in the order of their offsets.

use vstd::prelude::*;

use crate::bytes::{push_u32_le, read_u32_le, u32_at, u32_bytes, ParseError};
use crate::entry::{
    entries_view, entry_at, entry_bytes, is_field_name, sort_entries, sorted_by, Entry, EntryV,
    SortKey, ENTRY_LEN,
};

verus! {

/// Magic number of a Rayform package.
pub const MAGIC: u32 = 0xAFBF0C01;

/// A Rayform package: its table and, for each entry in the order of the
/// entries' offsets, that entry's bytes.
pub struct Rpk {
    pub entries: Vec<Entry>,
    pub data: Vec<Vec<u8>>,
}

/// The mathematical value of an [`Rpk`].
pub struct RpkV {
    pub entries: Seq<EntryV>,
    pub data: Seq<Seq<u8>>,
}

impl View for Rpk {
    type V = RpkV;

    open spec fn view(&self) -> RpkV {
        RpkV { entries: entries_view(self.entries@), data: self.data@.map_values(|d: Vec<u8>| d@) }
    }
}

/// The sizes of a sequence of entries.
pub open spec fn sizes_of(es: Seq<EntryV>) -> Seq<u32> {
    es.map_values(|e: EntryV| e.size)
}

/// The sum of `sizes`.
pub open spec fn total(sizes: Seq<u32>) -> int
    decreases sizes.len(),
{
    if sizes.len() == 0 {
        0
    } else {
        total(sizes.drop_last()) + sizes.last()
    }
}

/// The consecutive blocks of the given sizes that start at `start` in `s`, or
/// `None` when `s` ends before the last of them does.
pub open spec fn chunks(s: Seq<u8>, start: int, sizes: Seq<u32>) -> Option<Seq<Seq<u8>>>
    decreases sizes.len(),
{
    if sizes.len() == 0 {
        Some(Seq::empty())
    } else {
        match chunks(s, start, sizes.drop_last()) {
            None => None,
            Some(r) => {
                let p = start + total(sizes.drop_last());
                if p + sizes.last() > s.len() {
                    None
                } else {
                    Some(r.push(s.subrange(p, p + sizes.last())))
                }
            },
        }
    }
}

/// The `n` table rows that follow the 4-byte table length.
pub open spec fn table_at(s: Seq<u8>, n: nat) -> Seq<EntryV> {
    Seq::new(n, |i: int| entry_at(s, 4 + ENTRY_LEN * i))
}

/// The number of table rows that the table length at the start of `s` announces.
pub open spec fn table_rows(s: Seq<u8>) -> nat {
    (u32_at(s, 0) / (ENTRY_LEN as u32)) as nat
}

/// Whether each of the blocks `ds`, all shorter than `lim`, is read as a
/// block of game data (see [`crate::format::parse_format`]).
pub open spec fn blocks_parse(ds: Seq<Seq<u8>>, lim: nat) -> bool
    decreases lim, ds.len(),
{
    if ds.len() == 0 {
        true
    } else {
        blocks_parse(ds.drop_last(), lim) && ds.last().len() < lim
            && crate::format::parse_format(ds.last()) is Some
    }
}

/// The package stored in `s` (after the magic number), or `None` when `s`
/// ends before the table or before the last block, or when a block is not
/// read as a block of game data.
pub open spec fn parse_rpk(s: Seq<u8>) -> Option<RpkV>
    decreases s.len() + 1, 0nat,
{
    if s.len() < 4 {
        None
    } else {
        let n = table_rows(s);
        if 4 + ENTRY_LEN * n > s.len() {
            None
        } else {
            let es = table_at(s, n);
            match chunks(s, 4 + ENTRY_LEN * n, sizes_of(sorted_by(SortKey::Offset, es))) {
                None => None,
                Some(d) => if blocks_parse(d, s.len()) {
                    Some(RpkV { entries: es, data: d })
                } else {
                    None
                },
            }
        }
    }
}

/// Concatenation of blocks, first to last.
pub open spec fn concat(d: Seq<Seq<u8>>) -> Seq<u8>
    decreases d.len(),
{
    if d.len() == 0 {
        Seq::empty()
    } else {
        concat(d.drop_last()) + d.last()
    }
}

/// The bytes written for a package (after the magic number): the table
/// length, the table, then the blocks in the order held.
pub open spec fn rpk_bytes(r: RpkV) -> Seq<u8> {
    u32_bytes((r.entries.len() * ENTRY_LEN) as u32) + concat(r.entries.map_values(|e: EntryV| entry_bytes(e)))
        + concat(r.data)
}

/// A package that is written and read back unchanged: the table fits its
/// length field, every name fits its field, and the blocks are held in the
/// order of the entries' offsets with the sizes that the table gives them.
pub open spec fn is_well_formed(r: RpkV) -> bool {
    &&& r.entries.len() * ENTRY_LEN <= u32::MAX
    &&& forall|i: int| 0 <= i < r.entries.len() ==> is_field_name(#[trigger] r.entries[i].name)
    &&& r.data.len() == r.entries.len()
    &&& forall|k: int| 0 <= k < r.data.len() ==> (#[trigger] r.data[k]).len() == sorted_by(
        SortKey::Offset,
        r.entries,
    )[k].size
    &&& forall|k: int| 0 <= k < r.data.len() ==> crate::format::parse_format(#[trigger] r.data[k]) is Some
}

/// `blocks_parse` holds exactly when every block is shorter than the limit and
/// is read as a block of game data.
pub proof fn lemma_blocks_parse(ds: Seq<Seq<u8>>, lim: nat)
    ensures
        blocks_parse(ds, lim) <==> forall|k: int|
            0 <= k < ds.len() ==> (#[trigger] ds[k]).len() < lim && crate::format::parse_format(
                ds[k],
            ) is Some,
    decreases ds.len(),
{
    if ds.len() > 0 {
        let d0 = ds.drop_last();
        lemma_blocks_parse(d0, lim);
        assert forall|k: int| 0 <= k < ds.len() - 1 implies #[trigger] d0[k] == ds[k] by {}
        if blocks_parse(ds, lim) {
            assert forall|k: int| 0 <= k < ds.len() implies (#[trigger] ds[k]).len() < lim
                && crate::format::parse_format(ds[k]) is Some by {
                if k < ds.len() - 1 {
                    assert(d0[k] == ds[k]);
                }
            }
        }
        if forall|k: int|
            0 <= k < ds.len() ==> (#[trigger] ds[k]).len() < lim && crate::format::parse_format(
                ds[k],
            ) is Some {
            assert(ds[ds.len() - 1] == ds.last());
            assert forall|k: int| 0 <= k < d0.len() implies (#[trigger] d0[k]).len() < lim
                && crate::format::parse_format(d0[k]) is Some by {
                assert(d0[k] == ds[k]);
            }
        }
    }
}

proof fn lemma_concat_elem_len(d: Seq<Seq<u8>>, k: int)
    requires
        0 <= k < d.len(),
    ensures
        d[k].len() <= concat(d).len(),
    decreases d.len(),
{
    if k < d.len() - 1 {
        lemma_concat_elem_len(d.drop_last(), k);
        assert(d.drop_last()[k] == d[k]);
    }
}

proof fn lemma_chunks_lens(s: Seq<u8>, start: int, sizes: Seq<u32>)
    requires
        0 <= start,
        chunks(s, start, sizes) is Some,
    ensures
        forall|k: int|
            0 <= k < chunks(s, start, sizes).unwrap().len() ==> start + (
            #[trigger] chunks(s, start, sizes).unwrap()[k]).len() <= s.len(),
        chunks(s, start, sizes).unwrap().len() == sizes.len(),
    decreases sizes.len(),
{
    if sizes.len() > 0 {
        lemma_chunks_lens(s, start, sizes.drop_last());
        lemma_total_nonneg(sizes.drop_last());
        let d = chunks(s, start, sizes).unwrap();
        let d0 = chunks(s, start, sizes.drop_last()).unwrap();
        assert forall|k: int| 0 <= k < d.len() implies start + (#[trigger] d[k]).len() <= s.len() by {
            if k < d0.len() {
                assert(d[k] == d0[k]);
            }
        }
    }
}

proof fn lemma_chunks_fail_monotone(s: Seq<u8>, start: int, sizes: Seq<u32>, i: int)
    requires
        0 <= i <= sizes.len(),
        chunks(s, start, sizes.take(i)) is None,
    ensures
        chunks(s, start, sizes) is None,
    decreases sizes.len() - i,
{
    if i < sizes.len() {
        assert(sizes.take(i + 1).drop_last() =~= sizes.take(i));
        lemma_chunks_fail_monotone(s, start, sizes, i + 1);
    } else {
        assert(sizes.take(i) =~= sizes);
    }
}

proof fn lemma_total_nonneg(sizes: Seq<u32>)
    ensures
        total(sizes) >= 0,
    decreases sizes.len(),
{
    if sizes.len() > 0 {
        lemma_total_nonneg(sizes.drop_last());
    }
}

/// Reads the blocks of the given entries' sizes, one after another from `start`.
fn read_blocks(s: &[u8], start: usize, sorted: &Vec<Entry>) -> (r: Option<Vec<Vec<u8>>>)
    requires
        start <= s@.len(),
    ensures
        r is Some <==> chunks(s@, start as int, sizes_of(entries_view(sorted@))) is Some,
        r matches Some(d) ==> d@.map_values(|b: Vec<u8>| b@) == chunks(
            s@,
            start as int,
            sizes_of(entries_view(sorted@)),
        ).unwrap(),
{
    let ghost sizes = sizes_of(entries_view(sorted@));
    let mut out: Vec<Vec<u8>> = Vec::new();
    let mut pos = start;
    let mut i: usize = 0;
    assert(sizes.take(0) =~= Seq::<u32>::empty());
    assert(out@.map_values(|b: Vec<u8>| b@) =~= Seq::<Seq<u8>>::empty());
    while i < sorted.len()
        invariant
            i <= sorted.len(),
            sizes == sizes_of(entries_view(sorted@)),
            start <= pos <= s@.len(),
            pos == start + total(sizes.take(i as int)),
            chunks(s@, start as int, sizes.take(i as int)) == Some(
                out@.map_values(|b: Vec<u8>| b@),
            ),
        decreases sorted.len() - i,
    {
        let size = sorted[i].size as usize;
        assert(sizes.take(i + 1).drop_last() =~= sizes.take(i as int));
        assert(sizes.take(i + 1).last() == sizes[i as int]);
        if size > s.len() - pos {
            proof {
                lemma_chunks_fail_monotone(s@, start as int, sizes, i + 1);
            }
            return None;
        }
        let block = vstd::slice::slice_to_vec(vstd::slice::slice_subrange(s, pos, pos + size));
        let ghost before = out@.map_values(|b: Vec<u8>| b@);
        out.push(block);
        assert(out@.map_values(|b: Vec<u8>| b@) =~= before.push(
            s@.subrange(pos as int, pos + size),
        ));
        pos = pos + size;
        i = i + 1;
    }
    assert(sizes.take(sorted.len() as int) =~= sizes);
    Some(out)
}

impl Rpk {
    /// Reads a package body (the bytes after its magic number).
    pub fn parse(s: &[u8]) -> (r: Result<Rpk, ParseError>)
        ensures
            r is Ok <==> parse_rpk(s@) is Some,
            r matches Ok(p) ==> p@ == parse_rpk(s@).unwrap(),
            r matches Err(e) ==> e == ParseError::Incomplete,
            r matches Ok(p) ==> forall|k: int|
                0 <= k < p@.data.len() ==> crate::format::parse_format(#[trigger] p@.data[k]) is Some,
        decreases s@.len(), 1nat,
    {
        let len = match read_u32_le(s, 0) {
            Some(v) => v,
            None => return Err(ParseError::Incomplete),
        };
        let n = (len / 32) as usize;
        if n > (s.len() - 4) / 32 {
            return Err(ParseError::Incomplete);
        }
        let mut entries: Vec<Entry> = Vec::new();
        let mut i: usize = 0;
        while i < n
            invariant
                n == table_rows(s@),
                4 + ENTRY_LEN * n <= s@.len(),
                i <= n,
                entries_view(entries@) == table_at(s@, n as nat).take(i as int),
            decreases n - i,
        {
            let e = Entry::read(s, 4 + 32 * i).unwrap();
            let ghost before = entries@;
            entries.push(e);
            proof {
                let t = table_at(s@, n as nat);
                assert(entries@ == before.push(e));
                assert(entries_view(before).len() == i);
                assert(entries_view(entries@) =~= entries_view(before).push(e@));
                assert(t.take(i + 1) =~= t.take(i as int).push(t[i as int]));
            }
            i = i + 1;
        }
        assert(table_at(s@, n as nat).take(n as int) =~= table_at(s@, n as nat));
        let sorted = sort_entries(&SortKey::Offset, &entries);
        let data = match read_blocks(s, 4 + 32 * n, &sorted) {
            Some(data) => data,
            None => return Err(ParseError::Incomplete),
        };
        let ghost dv = data@.map_values(|b: Vec<u8>| b@);
        proof {
            lemma_chunks_lens(s@, 4 + 32 * n, sizes_of(entries_view(sorted@)));
            lemma_blocks_parse(dv, s@.len());
        }
        let mut k: usize = 0;
        while k < data.len()
            invariant
                k <= data@.len(),
                dv == data@.map_values(|b: Vec<u8>| b@),
                forall|j: int| 0 <= j < dv.len() ==> (#[trigger] dv[j]).len() < s@.len(),
                forall|j: int| 0 <= j < k ==> crate::format::parse_format(#[trigger] dv[j]) is Some,
                blocks_parse(dv, s@.len()) <==> forall|j: int|
                    0 <= j < dv.len() ==> (#[trigger] dv[j]).len() < s@.len()
                        && crate::format::parse_format(dv[j]) is Some,
                parse_rpk(s@) is Some ==> blocks_parse(dv, s@.len()),
            decreases data.len() - k,
        {
            assert(dv[k as int] == data@[k as int]@);
            match crate::format::Format::parse(data[k].as_slice()) {
                Ok(_) => {},
                Err(e) => {
                    assert(crate::format::parse_format(dv[k as int]) is None);
                    assert(!blocks_parse(dv, s@.len()));
                    return Err(e);
                },
            }
            k = k + 1;
        }
        Ok(Rpk { entries, data })
    }

    /// The package's blocks, in the order of the entries' offsets, each read
    /// as a block of game data.
    pub fn formats(&self) -> (r: Vec<crate::format::Format>)
        requires
            forall|k: int|
                0 <= k < self@.data.len() ==> crate::format::parse_format(#[trigger] self@.data[k]) is Some,
        ensures
            r@.len() == self@.data.len(),
            forall|k: int|
                0 <= k < r@.len() ==> (#[trigger] r@[k])@ == crate::format::parse_format(
                    self@.data[k],
                ).unwrap(),
    {
        let mut out: Vec<crate::format::Format> = Vec::new();
        let mut k: usize = 0;
        while k < self.data.len()
            invariant
                k <= self.data@.len(),
                self@.data.len() == self.data@.len(),
                forall|j: int|
                    0 <= j < self@.data.len() ==> crate::format::parse_format(#[trigger] self@.data[j])
                        is Some,
                out@.len() == k,
                forall|j: int|
                    0 <= j < k ==> (#[trigger] out@[j])@ == crate::format::parse_format(
                        self@.data[j],
                    ).unwrap(),
            decreases self.data.len() - k,
        {
            assert(self@.data[k as int] == self.data@[k as int]@);
            match crate::format::Format::parse(self.data[k].as_slice()) {
                Ok(f) => out.push(f),
                Err(_) => {
                    assert(false);
                    return out;
                },
            }
            k = k + 1;
        }
        out
    }

    /// Writes the package body (the bytes after its magic number).
    pub fn to_bytes(&self) -> (r: Vec<u8>)
        requires
            self.entries@.len() * ENTRY_LEN <= u32::MAX,
        ensures
            r@ == rpk_bytes(self@),
    {
        let mut out: Vec<u8> = Vec::new();
        push_u32_le(&mut out, (self.entries.len() * 32) as u32);
        write_rows(&mut out, &self.entries);
        write_blocks(&mut out, &self.data);
        out
    }
}

/// Appends the table rows of `entries`.
fn write_rows(out: &mut Vec<u8>, entries: &Vec<Entry>)
    ensures
        final(out)@ == old(out)@ + concat(entries_view(entries@).map_values(|e: EntryV| entry_bytes(e))),
{
    let ghost head = out@;
    let ghost rows = entries_view(entries@).map_values(|e: EntryV| entry_bytes(e));
    let mut i: usize = 0;
    assert(rows.take(0) =~= Seq::<Seq<u8>>::empty());
    assert(out@ =~= head + concat(rows.take(0)));
    while i < entries.len()
        invariant
            i <= entries.len(),
            rows == entries_view(entries@).map_values(|e: EntryV| entry_bytes(e)),
            out@ == head + concat(rows.take(i as int)),
        decreases entries.len() - i,
    {
        entries[i].write(out);
        assert(rows.take(i + 1).drop_last() =~= rows.take(i as int));
        assert(rows[i as int] == entry_bytes(entries@[i as int]@));
        assert(head + concat(rows.take(i as int)) + rows[i as int] =~= head + concat(
            rows.take(i + 1),
        ));
        i = i + 1;
    }
    assert(rows.take(entries.len() as int) =~= rows);
}

/// Appends `b`.
fn write_bytes(out: &mut Vec<u8>, b: &Vec<u8>)
    ensures
        final(out)@ == old(out)@ + b@,
{
    let ghost before = out@;
    let mut j: usize = 0;
    while j < b.len()
        invariant
            j <= b.len(),
            out@ == before + b@.take(j as int),
        decreases b.len() - j,
    {
        out.push(b[j]);
        assert(b@.take(j + 1) =~= b@.take(j as int).push(b@[j as int]));
        j = j + 1;
    }
    assert(b@.take(b.len() as int) =~= b@);
}

/// Appends the blocks of `data`, first to last.
fn write_blocks(out: &mut Vec<u8>, data: &Vec<Vec<u8>>)
    ensures
        final(out)@ == old(out)@ + concat(data@.map_values(|d: Vec<u8>| d@)),
{
    let ghost mid = out@;
    let ghost blocks = data@.map_values(|d: Vec<u8>| d@);
    let mut k: usize = 0;
    assert(blocks.take(0) =~= Seq::<Seq<u8>>::empty());
    assert(out@ =~= mid + concat(blocks.take(0)));
    while k < data.len()
        invariant
            k <= data.len(),
            blocks == data@.map_values(|d: Vec<u8>| d@),
            out@ == mid + concat(blocks.take(k as int)),
        decreases data.len() - k,
    {
        write_bytes(out, &data[k]);
        assert(blocks.take(k + 1).drop_last() =~= blocks.take(k as int));
        assert(blocks[k as int] == data@[k as int]@);
        assert(mid + concat(blocks.take(k as int)) + data@[k as int]@ =~= mid + concat(
            blocks.take(k + 1),
        ));
        k = k + 1;
    }
    assert(blocks.take(data.len() as int) =~= blocks);
}

} // verus!

verus! {

proof fn lemma_concat_rows(rows: Seq<Seq<u8>>)
    requires
        forall|i: int| 0 <= i < rows.len() ==> (#[trigger] rows[i]).len() == ENTRY_LEN,
    ensures
        concat(rows).len() == ENTRY_LEN * rows.len(),
        forall|i: int|
            0 <= i < rows.len() ==> concat(rows).subrange(
                ENTRY_LEN * i,
                ENTRY_LEN * i + ENTRY_LEN,
            ) == #[trigger] rows[i],
    decreases rows.len(),
{
    if rows.len() > 0 {
        let init = rows.drop_last();
        lemma_concat_rows(init);
        let c = concat(rows);
        assert(c == concat(init) + rows.last());
        assert forall|i: int| 0 <= i < rows.len() implies c.subrange(
            ENTRY_LEN * i,
            ENTRY_LEN * i + ENTRY_LEN,
        ) == #[trigger] rows[i] by {
            if i < rows.len() - 1 {
                assert(init[i] == rows[i]);
                assert(c.subrange(ENTRY_LEN * i, ENTRY_LEN * i + ENTRY_LEN) =~= concat(
                    init,
                ).subrange(ENTRY_LEN * i, ENTRY_LEN * i + ENTRY_LEN));
            } else {
                assert(c.subrange(ENTRY_LEN * i, ENTRY_LEN * i + ENTRY_LEN) =~= rows.last());
            }
        }
    }
}

proof fn lemma_chunks_of_concat(s: Seq<u8>, start: int, d: Seq<Seq<u8>>, sizes: Seq<u32>)
    requires
        0 <= start,
        start + concat(d).len() <= s.len(),
        s.subrange(start, start + concat(d).len()) == concat(d),
        sizes.len() == d.len(),
        forall|k: int| 0 <= k < d.len() ==> (#[trigger] d[k]).len() == sizes[k],
    ensures
        total(sizes) == concat(d).len(),
        chunks(s, start, sizes) == Some(d),
    decreases d.len(),
{
    if d.len() == 0 {
        assert(d =~= Seq::<Seq<u8>>::empty());
    } else {
        let d0 = d.drop_last();
        let z0 = sizes.drop_last();
        assert(concat(d) == concat(d0) + d.last());
        assert(s.subrange(start, start + concat(d0).len()) =~= concat(d).subrange(
            0,
            concat(d0).len() as int,
        ));
        assert(concat(d).subrange(0, concat(d0).len() as int) =~= concat(d0));
        assert forall|k: int| 0 <= k < d0.len() implies (#[trigger] d0[k]).len() == z0[k] by {
            assert(d0[k] == d[k]);
        }
        lemma_chunks_of_concat(s, start, d0, z0);
        assert(d.last().len() == sizes.last());
        let p = start + total(z0);
        assert(s.subrange(p, p + sizes.last()) =~= d.last()) by {
            assert forall|j: int| 0 <= j < sizes.last() implies s.subrange(p, p + sizes.last())[j]
                == d.last()[j] by {
                assert(s[p + j] == s.subrange(start, start + concat(d).len())[concat(d0).len()
                    + j]);
            }
        }
        assert(d0.push(d.last()) =~= d);
    }
}

/// A well-formed package is read back from its bytes exactly as written.
pub proof fn lemma_rpk_roundtrip(r: RpkV)
    requires
        is_well_formed(r),
    ensures
        parse_rpk(rpk_bytes(r)) == Some(r),
{
    let n = r.entries.len();
    let rows = r.entries.map_values(|e: EntryV| entry_bytes(e));
    let h = u32_bytes((n * ENTRY_LEN) as u32);
    let t = concat(rows);
    let dd = concat(r.data);
    let b = rpk_bytes(r);
    assert(b == h + t + dd);
    assert forall|i: int| 0 <= i < rows.len() implies (#[trigger] rows[i]).len() == ENTRY_LEN by {
        assert(rows[i] == entry_bytes(r.entries[i]));
    }
    lemma_concat_rows(rows);
    crate::bytes::lemma_u32_roundtrip((n * ENTRY_LEN) as u32);
    assert(u32_at(b, 0) == u32_at(h, 0));
    assert(table_rows(b) == n);
    assert(4 + ENTRY_LEN * n <= b.len());
    let es = table_at(b, n);
    assert forall|i: int| 0 <= i < n implies #[trigger] es[i] == r.entries[i] by {
        let pos = 4 + ENTRY_LEN * i;
        assert(b.subrange(pos, pos + ENTRY_LEN) =~= t.subrange(
            ENTRY_LEN * i,
            ENTRY_LEN * i + ENTRY_LEN,
        ));
        assert(rows[i] == entry_bytes(r.entries[i]));
        crate::entry::lemma_entry_roundtrip(r.entries[i], b, pos);
    }
    assert(es =~= r.entries);
    let sizes = sizes_of(sorted_by(SortKey::Offset, r.entries));
    crate::entry::lemma_sorted_by_permutes(SortKey::Offset, r.entries);
    let start = 4 + ENTRY_LEN * n;
    assert(b.subrange(start, start + dd.len()) =~= dd);
    lemma_chunks_of_concat(b, start, r.data, sizes);
    assert forall|k: int| 0 <= k < r.data.len() implies (#[trigger] r.data[k]).len() < b.len()
        && crate::format::parse_format(r.data[k]) is Some by {
        lemma_concat_elem_len(r.data, k);
    }
    lemma_blocks_parse(r.data, b.len());
}

} // verus!

verus! {

/// Whether a file name is that of a package: it ends in `.rpk`.
pub open spec fn is_package_name(name: Seq<char>) -> bool {
    name.len() >= 4 && name.subrange(name.len() - 4, name.len() as int) == ".rpk"@
}

/// Whether the file name `name` is that of a package.
pub fn is_package_file(name: &str) -> (r: bool)
    ensures
        r == is_package_name(name@),
{
    let n = name.unicode_len();
    if n < 4 {
        return false;
    }
    let suffix = name.substring_char(n - 4, n);
    crate::text::same_text(suffix, ".rpk")
}

} // verus!
