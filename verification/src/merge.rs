//! Laying mods over the game's packages: each entry that a mod's package
//! holds replaces the game's entry of the same name, or is added to it; the
//! result is then laid out afresh and its table arranged by name.

use vstd::prelude::*;

use crate::entry::{entries_view, sort_entries, sorted_by, Entry, EntryV, SortKey};
use crate::rpk::{total, Rpk, RpkV};

verus! {

/// The index of the first entry of `es` named `name`, if any.
pub open spec fn find_name(es: Seq<EntryV>, name: Seq<char>) -> Option<int>
    decreases es.len(),
{
    if es.len() == 0 {
        None
    } else {
        match find_name(es.drop_last(), name) {
            Some(i) => Some(i),
            None => if es.last().name == name {
                Some(es.len() - 1)
            } else {
                None
            },
        }
    }
}

/// A package's table (in the order of its blocks) together with its blocks.
pub struct Layered {
    pub entries: Seq<EntryV>,
    pub data: Seq<Seq<u8>>,
}

/// Lays one mod entry with its block over `p`: it replaces the block of the
/// first entry of the same name, or is appended with its block.
pub open spec fn lay_entry(p: Layered, e: EntryV, d: Seq<u8>) -> Layered {
    match find_name(p.entries, e.name) {
        Some(i) => Layered { entries: p.entries, data: p.data.update(i, d) },
        None => Layered { entries: p.entries.push(e), data: p.data.push(d) },
    }
}

/// Lays the first `n` mod entries (in the order of their offsets), each with
/// the block at the same index, over `p`, first to last.
pub open spec fn lay_entries(p: Layered, es: Seq<EntryV>, ds: Seq<Seq<u8>>, n: int) -> Layered
    decreases n,
{
    if n <= 0 {
        p
    } else {
        lay_entry(lay_entries(p, es, ds, n - 1), es[n - 1], ds[n - 1])
    }
}

/// Lays one mod's package over `p`.
pub open spec fn lay_package(p: Layered, m: RpkV) -> Layered {
    let es = sorted_by(SortKey::Offset, m.entries);
    lay_entries(p, es, m.data, es.len() as int)
}

/// Lays the first `n` mods' packages over `p`, in load order.
pub open spec fn lay_packages(p: Layered, mods: Seq<RpkV>, n: int) -> Layered
    decreases n,
{
    if n <= 0 {
        p
    } else {
        lay_package(lay_packages(p, mods, n - 1), mods[n - 1])
    }
}

/// The lengths of blocks.
pub open spec fn lens(ds: Seq<Seq<u8>>) -> Seq<u32> {
    ds.map_values(|d: Seq<u8>| d.len() as u32)
}

/// The table of `p` laid out afresh: each entry's block starts where the
/// previous one ends, the first at zero, and spans its block's length.
pub open spec fn laid_out(p: Layered) -> Seq<EntryV> {
    Seq::new(
        p.entries.len(),
        |i: int|
            EntryV {
                name: p.entries[i].name,
                offset: total(lens(p.data).take(i)) as u32,
                size: p.data[i].len() as u32,
            },
    )
}

/// The package that results from laying `mods` over the game's package
/// `base`: laid out afresh and with its table arranged by name.
pub open spec fn merged(base: RpkV, mods: Seq<RpkV>) -> RpkV {
    let start = Layered { entries: sorted_by(SortKey::Offset, base.entries), data: base.data };
    let p = lay_packages(start, mods, mods.len() as int);
    RpkV { entries: sorted_by(SortKey::Name, laid_out(p)), data: p.data }
}

/// A package whose every entry has a block.
pub open spec fn has_blocks(r: RpkV) -> bool {
    r.data.len() >= r.entries.len()
}

/// The blocks of `p` and of every mod fit, together, the 32-bit offsets.
pub open spec fn fits_offsets(base: RpkV, mods: Seq<RpkV>) -> bool {
    total(lens(merged(base, mods).data)) <= u32::MAX
        && forall|k: int|
        0 <= k < merged(base, mods).data.len() ==> (#[trigger] merged(base, mods).data[k]).len()
            <= u32::MAX
}

/// The view of a sequence of blocks.
pub open spec fn blocks_view(v: Seq<Vec<u8>>) -> Seq<Seq<u8>> {
    v.map_values(|d: Vec<u8>| d@)
}

/// Copies a block (`Vec::clone`).
fn copy_block(b: &Vec<u8>) -> (r: Vec<u8>)
    ensures
        r@ == b@,
{
    let r = b.clone();
    assert(r@ =~= b@);
    r
}

/// The index of the first entry of `es` named `name`, if any.
fn position_by_name(es: &Vec<Entry>, name: &String) -> (r: Option<usize>)
    ensures
        r matches Some(i) ==> find_name(entries_view(es@), name@) == Some(i as int),
        r is None ==> find_name(entries_view(es@), name@) is None,
{
    let ghost v = entries_view(es@);
    let mut i: usize = 0;
    while i < es.len()
        invariant
            i <= es.len(),
            v == entries_view(es@),
            find_name(v.take(i as int), name@) is None,
        decreases es.len() - i,
    {
        assert(v.take(i + 1).drop_last() =~= v.take(i as int));
        if es[i].name == *name {
            proof {
                lemma_find_name_prefix(v, i as int + 1);
            }
            return Some(i);
        }
        i = i + 1;
    }
    assert(v.take(es.len() as int) =~= v);
    None
}

/// The index that `find_name` gives is that of an entry with the name; when it
/// gives none, no entry has the name.
pub proof fn lemma_find_name(es: Seq<EntryV>, name: Seq<char>)
    ensures
        find_name(es, name) matches Some(i) ==> 0 <= i < es.len() && es[i].name == name && forall|
            j: int,
        |
            0 <= j < i ==> (#[trigger] es[j]).name != name,
        find_name(es, name) is None ==> forall|j: int|
            0 <= j < es.len() ==> (#[trigger] es[j]).name != name,
    decreases es.len(),
{
    if es.len() > 0 {
        lemma_find_name(es.drop_last(), name);
        assert forall|j: int| 0 <= j < es.len() - 1 implies #[trigger] es[j] == es.drop_last()[j] by {}
    }
}

/// A name found in a prefix is found at the same index in the whole.
proof fn lemma_find_name_prefix(v: Seq<EntryV>, n: int)
    requires
        0 <= n <= v.len(),
    ensures
        find_name(v.take(n), v.take(n).last().name) is Some ==> n == 0 || find_name(
            v,
            v.take(n).last().name,
        ) == find_name(v.take(n), v.take(n).last().name),
    decreases v.len() - n,
{
    if n > 0 && n < v.len() {
        let name = v.take(n).last().name;
        lemma_find_name_extends(v, n, name);
    }
    if n == v.len() {
        assert(v.take(n) =~= v);
    }
}

/// Once found in a prefix, a name is found at the same index in every longer prefix.
proof fn lemma_find_name_extends(v: Seq<EntryV>, n: int, name: Seq<char>)
    requires
        0 <= n <= v.len(),
        find_name(v.take(n), name) is Some,
    ensures
        find_name(v, name) == find_name(v.take(n), name),
    decreases v.len() - n,
{
    if n < v.len() {
        assert(v.take(n + 1).drop_last() =~= v.take(n));
        lemma_find_name_extends(v, n + 1, name);
    } else {
        assert(v.take(n) =~= v);
    }
}

/// Lays the entries of one mod's package over the game's table and blocks.
fn lay_package_exec(entries: &mut Vec<Entry>, data: &mut Vec<Vec<u8>>, m: &Rpk)
    requires
        old(entries)@.len() == old(data)@.len(),
        has_blocks(m@),
    ensures
        final(entries)@.len() == final(data)@.len(),
        (Layered { entries: entries_view(final(entries)@), data: blocks_view(final(data)@) })
            == lay_package(
            Layered { entries: entries_view(old(entries)@), data: blocks_view(old(data)@) },
            m@,
        ),
{
    let ghost start = Layered {
        entries: entries_view(entries@),
        data: blocks_view(data@),
    };
    let sorted = sort_entries(&SortKey::Offset, &m.entries);
    let ghost es = sorted_by(SortKey::Offset, m@.entries);
    proof {
        crate::entry::lemma_sorted_by_permutes(SortKey::Offset, m@.entries);
    }
    let mut k: usize = 0;
    while k < sorted.len()
        invariant
            k <= sorted.len(),
            entries_view(sorted@) == es,
            es.len() == m@.entries.len(),
            m@.data.len() >= es.len(),
            entries@.len() == data@.len(),
            (Layered { entries: entries_view(entries@), data: blocks_view(data@) }) == lay_entries(
                start,
                es,
                m@.data,
                k as int,
            ),
        decreases sorted.len() - k,
    {
        let e = &sorted[k];
        assert(e@ == es[k as int]);
        let block = copy_block(&m.data[k]);
        assert(block@ == m@.data[k as int]);
        proof {
            lemma_find_name(entries_view(entries@), e@.name);
        }
        match position_by_name(entries, &e.name) {
            Some(p) => {
                let ghost before = blocks_view(data@);
                data.set(p, block);
                assert(blocks_view(data@) =~= before.update(p as int, m@.data[k as int]));
            },
            None => {
                let ghost eb = entries_view(entries@);
                let ghost db = blocks_view(data@);
                entries.push(e.clone());
                data.push(block);
                assert(entries_view(entries@) =~= eb.push(es[k as int]));
                assert(blocks_view(data@) =~= db.push(m@.data[k as int]));
            },
        }
        k = k + 1;
    }
}

/// Lays `mods`' packages, in load order, over the game's package `base`;
/// then lays the result out afresh and arranges its table by name.
///
/// `None` when the merged blocks do not fit the package's 32-bit offsets.
pub fn merge_packages(base: &Rpk, mods: &Vec<Rpk>) -> (r: Option<Rpk>)
    requires
        base@.data.len() == base@.entries.len(),
        forall|i: int| 0 <= i < mods@.len() ==> has_blocks(#[trigger] mods@[i]@),
    ensures
        r is Some <==> fits_offsets(base@, mods@.map_values(|m: Rpk| m@)),
        r matches Some(p) ==> p@ == merged(base@, mods@.map_values(|m: Rpk| m@)),
{
    let ghost ms = mods@.map_values(|m: Rpk| m@);
    let mut entries = sort_entries(&SortKey::Offset, &base.entries);
    proof {
        crate::entry::lemma_sorted_by_permutes(SortKey::Offset, base@.entries);
    }
    let mut data: Vec<Vec<u8>> = Vec::new();
    let mut j: usize = 0;
    while j < base.data.len()
        invariant
            j <= base.data.len(),
            blocks_view(data@) == base@.data.take(j as int),
        decreases base.data.len() - j,
    {
        let b = copy_block(&base.data[j]);
        let ghost db = blocks_view(data@);
        data.push(b);
        assert(base@.data[j as int] == base.data@[j as int]@);
        assert(blocks_view(data@) =~= db.push(b@));
        assert(blocks_view(data@) =~= base@.data.take(j + 1));
        j = j + 1;
    }
    assert(base@.data.take(base.data.len() as int) =~= base@.data);
    let ghost start = Layered { entries: entries_view(entries@), data: blocks_view(data@) };
    let mut i: usize = 0;
    while i < mods.len()
        invariant
            i <= mods.len(),
            ms == mods@.map_values(|m: Rpk| m@),
            forall|k: int| 0 <= k < mods@.len() ==> has_blocks(#[trigger] mods@[k]@),
            entries@.len() == data@.len(),
            (Layered { entries: entries_view(entries@), data: blocks_view(data@) })
                == lay_packages(start, ms, i as int),
        decreases mods.len() - i,
    {
        lay_package_exec(&mut entries, &mut data, &mods[i]);
        assert(ms[i as int] == mods@[i as int]@);
        i = i + 1;
    }
    let ghost p = lay_packages(start, ms, mods.len() as int);
    proof {
        assert(start == Layered {
            entries: sorted_by(SortKey::Offset, base@.entries),
            data: base@.data,
        });
        assert(merged(base@, ms).data == blocks_view(data@));
    }
    if !blocks_fit(&data) {
        return None;
    }
    proof {
        assert forall|k: int| 0 <= k < data@.len() implies (#[trigger] data@[k])@.len() <= u32::MAX by {
            assert(blocks_view(data@)[k] == data@[k]@);
        }
    }
    let laid = lay_out(&entries, &data);
    let table = sort_entries(&SortKey::Name, &laid);
    Some(Rpk { entries: table, data })
}

/// Whether the blocks together fit 32-bit offsets.
fn blocks_fit(data: &Vec<Vec<u8>>) -> (r: bool)
    ensures
        r == (total(lens(blocks_view(data@))) <= u32::MAX && forall|k: int|
            0 <= k < blocks_view(data@).len() ==> (#[trigger] blocks_view(data@)[k]).len()
                <= u32::MAX),
{
    let ghost ds = blocks_view(data@);
    let ghost ls = lens(ds);
    let mut sum: u64 = 0;
    let mut i: usize = 0;
    assert(ls.take(0) =~= Seq::<u32>::empty());
    while i < data.len()
        invariant
            i <= data.len(),
            ds == blocks_view(data@),
            ls == lens(ds),
            sum == total(ls.take(i as int)),
            sum <= u32::MAX,
            forall|k: int| 0 <= k < i ==> (#[trigger] ds[k]).len() <= u32::MAX,
        decreases data.len() - i,
    {
        let n = data[i].len();
        assert(ds[i as int].len() == n);
        if n > 0xFFFF_FFFF {
            return false;
        }
        assert(ls.take(i + 1).drop_last() =~= ls.take(i as int));
        assert(ls[i as int] == n as u32);
        sum = sum + n as u64;
        if sum > 0xFFFF_FFFF {
            proof {
                lemma_total_prefix_le(ls, i + 1);
            }
            return false;
        }
        i = i + 1;
    }
    assert(ls.take(data.len() as int) =~= ls);
    true
}

/// The table laid out afresh over `data`.
fn lay_out(entries: &Vec<Entry>, data: &Vec<Vec<u8>>) -> (r: Vec<Entry>)
    requires
        entries@.len() == data@.len(),
        total(lens(blocks_view(data@))) <= u32::MAX,
        forall|k: int| 0 <= k < data@.len() ==> (#[trigger] data@[k])@.len() <= u32::MAX,
    ensures
        entries_view(r@) == laid_out(
            Layered { entries: entries_view(entries@), data: blocks_view(data@) },
        ),
{
    let ghost p = Layered { entries: entries_view(entries@), data: blocks_view(data@) };
    let ghost ls = lens(blocks_view(data@));
    let mut out: Vec<Entry> = Vec::new();
    let mut prev_offset: u32 = 0;
    let mut prev_size: u32 = 0;
    let mut i: usize = 0;
    while i < data.len()
        invariant
            i <= data.len(),
            entries@.len() == data@.len(),
            p == (Layered { entries: entries_view(entries@), data: blocks_view(data@) }),
            ls == lens(blocks_view(data@)),
            total(ls) <= u32::MAX,
            forall|k: int| 0 <= k < data@.len() ==> (#[trigger] data@[k])@.len() <= u32::MAX,
            i == 0 ==> prev_offset == 0 && prev_size == 0,
            i > 0 ==> prev_offset + prev_size == total(ls.take(i as int)),
            entries_view(out@) == laid_out(p).take(i as int),
        decreases data.len() - i,
    {
        proof {
            lemma_total_prefix_le(ls, i as int);
        }
        let offset = prev_offset + prev_size;
        let size = data[i].len() as u32;
        assert(ls[i as int] == size);
        let e = Entry { name: entries[i].name.clone(), offset, size };
        let ghost before = entries_view(out@);
        out.push(e);
        proof {
            assert(p.data[i as int] == data@[i as int]@);
            assert(e@.name == p.entries[i as int].name);
            if i == 0 {
                assert(ls.take(0) =~= Seq::<u32>::empty());
            }
            assert(e@ == laid_out(p)[i as int]);
            assert(entries_view(out@) =~= before.push(e@));
            assert(i == 0 ==> ls.take(0) =~= Seq::<u32>::empty());
            assert(entries_view(out@) =~= laid_out(p).take(i + 1));
            assert(ls.take(i + 1).drop_last() =~= ls.take(i as int));
        }
        prev_offset = offset;
        prev_size = size;
        i = i + 1;
    }
    assert(laid_out(p).take(data.len() as int) =~= laid_out(p));
    out
}

/// Every prefix sum of sizes is at most their total.
proof fn lemma_total_prefix_le(ls: Seq<u32>, i: int)
    requires
        0 <= i <= ls.len(),
    ensures
        total(ls.take(i)) <= total(ls),
        0 <= total(ls.take(i)),
    decreases ls.len() - i,
{
    if i < ls.len() {
        lemma_total_prefix_le(ls, i + 1);
        assert(ls.take(i + 1).drop_last() =~= ls.take(i));
    } else {
        assert(ls.take(i) =~= ls);
    }
    lemma_total_nonneg(ls.take(i));
}

proof fn lemma_total_nonneg(ls: Seq<u32>)
    ensures
        total(ls) >= 0,
    decreases ls.len(),
{
    if ls.len() > 0 {
        lemma_total_nonneg(ls.drop_last());
    }
}

} // verus!

verus! {

/// The block of the first entry of `p` named `name`, if any.
pub open spec fn block_of(p: Layered, name: Seq<char>) -> Option<Seq<u8>> {
    match find_name(p.entries, name) {
        Some(i) => Some(p.data[i]),
        None => None,
    }
}

/// A table and blocks that correspond one to one.
pub open spec fn is_paired(p: Layered) -> bool {
    p.entries.len() == p.data.len()
}

proof fn lemma_find_name_push(es: Seq<EntryV>, e: EntryV, name: Seq<char>)
    ensures
        find_name(es.push(e), name) == (match find_name(es, name) {
            Some(i) => Some(i),
            None => if e.name == name {
                Some(es.len() as int)
            } else {
                None
            },
        }),
{
    assert(es.push(e).drop_last() =~= es);
}

/// Laying an entry gives its name its block, and leaves the blocks of every
/// other name as they were.
pub proof fn lemma_lay_entry(p: Layered, e: EntryV, d: Seq<u8>, name: Seq<char>)
    requires
        is_paired(p),
    ensures
        is_paired(lay_entry(p, e, d)),
        name == e.name ==> block_of(lay_entry(p, e, d), name) == Some(d),
        name != e.name ==> block_of(lay_entry(p, e, d), name) == block_of(p, name),
{
    lemma_find_name(p.entries, e.name);
    lemma_find_name(p.entries, name);
    lemma_find_name_push(p.entries, e, name);
    match find_name(p.entries, e.name) {
        Some(i) => {
            if name != e.name {
                if let Some(j) = find_name(p.entries, name) {
                    assert(j != i);
                }
            }
        },
        None => {},
    }
}

/// Laying entries keeps table and blocks in correspondence.
pub proof fn lemma_lay_entries_paired(p: Layered, es: Seq<EntryV>, ds: Seq<Seq<u8>>, n: int)
    requires
        is_paired(p),
    ensures
        is_paired(lay_entries(p, es, ds, n)),
    decreases n,
{
    if n > 0 {
        lemma_lay_entries_paired(p, es, ds, n - 1);
        lemma_lay_entry(lay_entries(p, es, ds, n - 1), es[n - 1], ds[n - 1], Seq::empty());
    }
}

/// Laying entries leaves the block of a name that none of them has as it was.
pub proof fn lemma_lay_entries_other(
    p: Layered,
    es: Seq<EntryV>,
    ds: Seq<Seq<u8>>,
    n: int,
    name: Seq<char>,
)
    requires
        is_paired(p),
        0 <= n <= es.len(),
        forall|k: int| 0 <= k < n ==> (#[trigger] es[k]).name != name,
    ensures
        is_paired(lay_entries(p, es, ds, n)),
        block_of(lay_entries(p, es, ds, n), name) == block_of(p, name),
    decreases n,
{
    if n > 0 {
        lemma_lay_entries_other(p, es, ds, n - 1, name);
        lemma_lay_entry(lay_entries(p, es, ds, n - 1), es[n - 1], ds[n - 1], name);
    }
}

/// After laying entries, a name that some of them have holds the block of the
/// last of them.
pub proof fn lemma_lay_entries_last(
    p: Layered,
    es: Seq<EntryV>,
    ds: Seq<Seq<u8>>,
    n: int,
    j: int,
)
    requires
        is_paired(p),
        0 <= j < n <= es.len(),
        forall|k: int| j < k < n ==> (#[trigger] es[k]).name != es[j].name,
    ensures
        is_paired(lay_entries(p, es, ds, n)),
        block_of(lay_entries(p, es, ds, n), es[j].name) == Some(ds[j]),
    decreases n,
{
    let name = es[j].name;
    if n - 1 == j {
        lemma_lay_entries_paired(p, es, ds, n - 1);
        lemma_lay_entry(lay_entries(p, es, ds, n - 1), es[n - 1], ds[n - 1], name);
    } else {
        lemma_lay_entries_last(p, es, ds, n - 1, j);
        lemma_lay_entry(lay_entries(p, es, ds, n - 1), es[n - 1], ds[n - 1], name);
    }
}

} // verus!

verus! {

/// The index of the last entry of `es` named `name`, if any.
pub open spec fn rfind_name(es: Seq<EntryV>, name: Seq<char>, n: int) -> Option<int>
    decreases n,
{
    if n <= 0 {
        None
    } else if es[n - 1].name == name {
        Some(n - 1)
    } else {
        rfind_name(es, name, n - 1)
    }
}

/// The block that a mod's package gives `name`: that of the last entry, in
/// the order of the entries' offsets, with the name.
pub open spec fn mod_block(m: RpkV, name: Seq<char>) -> Option<Seq<u8>> {
    let es = sorted_by(SortKey::Offset, m.entries);
    match rfind_name(es, name, es.len() as int) {
        Some(j) => Some(m.data[j]),
        None => None,
    }
}

/// The last of the first `n` mods whose package has an entry named `name`.
pub open spec fn last_mod_with(mods: Seq<RpkV>, name: Seq<char>, n: int) -> Option<int>
    decreases n,
{
    if n <= 0 {
        None
    } else if mod_block(mods[n - 1], name) is Some {
        Some(n - 1)
    } else {
        last_mod_with(mods, name, n - 1)
    }
}

proof fn lemma_rfind_name(es: Seq<EntryV>, name: Seq<char>, n: int)
    requires
        0 <= n <= es.len(),
    ensures
        rfind_name(es, name, n) matches Some(j) ==> 0 <= j < n && es[j].name == name && forall|
            k: int,
        |
            j < k < n ==> (#[trigger] es[k]).name != name,
        rfind_name(es, name, n) is None ==> forall|k: int|
            0 <= k < n ==> (#[trigger] es[k]).name != name,
    decreases n,
{
    if n > 0 {
        lemma_rfind_name(es, name, n - 1);
    }
}

/// Laying a mod's package gives each name that the package has the package's
/// block for it, and leaves every other name's block as it was.
pub proof fn lemma_lay_package(p: Layered, m: RpkV, name: Seq<char>)
    requires
        is_paired(p),
        has_blocks(m),
    ensures
        is_paired(lay_package(p, m)),
        block_of(lay_package(p, m), name) == (match mod_block(m, name) {
            Some(d) => Some(d),
            None => block_of(p, name),
        }),
{
    let es = sorted_by(SortKey::Offset, m.entries);
    crate::entry::lemma_sorted_by_permutes(SortKey::Offset, m.entries);
    lemma_rfind_name(es, name, es.len() as int);
    lemma_lay_entries_paired(p, es, m.data, es.len() as int);
    match rfind_name(es, name, es.len() as int) {
        Some(j) => {
            lemma_lay_entries_last(p, es, m.data, es.len() as int, j);
        },
        None => {
            lemma_lay_entries_other(p, es, m.data, es.len() as int, name);
        },
    }
}

/// Load order: after laying the first `n` mods' packages over `p`, a name
/// holds the block that the last of those mods having it gives it, or, when
/// none of them has it, the block it held in `p`.
pub proof fn lemma_load_order(p: Layered, mods: Seq<RpkV>, n: int, name: Seq<char>)
    requires
        is_paired(p),
        0 <= n <= mods.len(),
        forall|i: int| 0 <= i < mods.len() ==> has_blocks(#[trigger] mods[i]),
    ensures
        is_paired(lay_packages(p, mods, n)),
        block_of(lay_packages(p, mods, n), name) == (match last_mod_with(mods, name, n) {
            Some(i) => mod_block(mods[i], name),
            None => block_of(p, name),
        }),
    decreases n,
{
    if n > 0 {
        lemma_load_order(p, mods, n - 1, name);
        lemma_lay_package(lay_packages(p, mods, n - 1), mods[n - 1], name);
    }
}

} // verus!

verus! {

/// Every entry's name fits the name field.
pub open spec fn names_fit(es: Seq<EntryV>) -> bool {
    forall|i: int| 0 <= i < es.len() ==> crate::entry::is_field_name(#[trigger] es[i].name)
}

/// Every block is non-empty and is read as a block of game data.
pub open spec fn blocks_ok(ds: Seq<Seq<u8>>) -> bool {
    forall|k: int|
        0 <= k < ds.len() ==> (#[trigger] ds[k]).len() > 0 && crate::format::parse_format(ds[k])
            is Some
}

/// A package that a merge can take: its names fit the name field and its
/// blocks, one for each entry, are non-empty and read as blocks.
pub open spec fn is_mergeable(r: RpkV) -> bool {
    &&& names_fit(r.entries)
    &&& blocks_ok(r.data)
    &&& r.data.len() == r.entries.len()
}

proof fn lemma_sorted_names_fit(key: SortKey, s: Seq<EntryV>)
    requires
        names_fit(s),
    ensures
        names_fit(sorted_by(key, s)),
{
    broadcast use vstd::seq_lib::group_to_multiset_ensures;

    let t = sorted_by(key, s);
    crate::entry::lemma_sorted_by_permutes(key, s);
    assert forall|i: int| 0 <= i < t.len() implies crate::entry::is_field_name(
        #[trigger] t[i].name,
    ) by {
        assert(t.contains(t[i]));
        assert(t.to_multiset().count(t[i]) > 0);
        assert(s.contains(t[i]));
        let j = choose|j: int| 0 <= j < s.len() && s[j] == t[i];
        assert(crate::entry::is_field_name(s[j].name));
    }
}

/// Table and blocks in correspondence, names that fit, non-empty blocks.
pub open spec fn is_sound(p: Layered) -> bool {
    is_paired(p) && names_fit(p.entries) && blocks_ok(p.data)
}

proof fn lemma_lay_entries_sound(p: Layered, es: Seq<EntryV>, ds: Seq<Seq<u8>>, n: int)
    requires
        is_sound(p),
        0 <= n <= es.len(),
        n <= ds.len(),
        names_fit(es),
        blocks_ok(ds),
    ensures
        is_sound(lay_entries(p, es, ds, n)),
    decreases n,
{
    if n > 0 {
        lemma_lay_entries_sound(p, es, ds, n - 1);
        let q = lay_entries(p, es, ds, n - 1);
        lemma_find_name(q.entries, es[n - 1].name);
        let r = lay_entry(q, es[n - 1], ds[n - 1]);
        assert(ds[n - 1].len() > 0);
        assert(crate::entry::is_field_name(es[n - 1].name));
        assert forall|i: int| 0 <= i < r.entries.len() implies crate::entry::is_field_name(
            #[trigger] r.entries[i].name,
        ) by {
            if i < q.entries.len() {
                assert(r.entries[i] == q.entries[i]);
            }
        }
        assert forall|k: int| 0 <= k < r.data.len() implies (#[trigger] r.data[k]).len() > 0 by {
            if k < q.data.len() && r.data[k] != ds[n - 1] {
                assert(r.data[k] == q.data[k]);
            }
        }
    }
}

proof fn lemma_lay_packages_sound(p: Layered, mods: Seq<RpkV>, n: int)
    requires
        is_sound(p),
        0 <= n <= mods.len(),
        forall|i: int| 0 <= i < mods.len() ==> is_mergeable(#[trigger] mods[i]),
    ensures
        is_sound(lay_packages(p, mods, n)),
    decreases n,
{
    if n > 0 {
        lemma_lay_packages_sound(p, mods, n - 1);
        let m = mods[n - 1];
        assert(is_mergeable(m));
        let es = sorted_by(SortKey::Offset, m.entries);
        crate::entry::lemma_sorted_by_permutes(SortKey::Offset, m.entries);
        lemma_sorted_names_fit(SortKey::Offset, m.entries);
        lemma_lay_entries_sound(lay_packages(p, mods, n - 1), es, m.data, es.len() as int);
    }
}

proof fn lemma_total_take_strict(ls: Seq<u32>, i: int, j: int)
    requires
        0 <= i < j <= ls.len(),
        forall|k: int| 0 <= k < ls.len() ==> #[trigger] ls[k] >= 1,
    ensures
        total(ls.take(i)) < total(ls.take(j)),
    decreases j - i,
{
    assert(ls.take(j).drop_last() =~= ls.take(j - 1));
    if i < j - 1 {
        lemma_total_take_strict(ls, i, j - 1);
    }
    lemma_total_nonneg(ls.take(j - 1));
}

/// Laid out afresh over non-empty blocks, the table is in strictly increasing
/// order of offsets.
proof fn lemma_laid_out_strict(p: Layered)
    requires
        is_paired(p),
        blocks_ok(p.data),
        total(lens(p.data)) <= u32::MAX,
        forall|k: int| 0 <= k < p.data.len() ==> (#[trigger] p.data[k]).len() <= u32::MAX,
    ensures
        crate::entry::is_strictly_sorted_by(SortKey::Offset, laid_out(p)),
{
    let l = laid_out(p);
    let ls = lens(p.data);
    assert forall|k: int| 0 <= k < ls.len() implies #[trigger] ls[k] >= 1 by {
        assert(p.data[k].len() > 0);
    }
    assert forall|i: int, j: int| 0 <= i < j < l.len() implies crate::entry::key_lt(
        SortKey::Offset,
        #[trigger] l[i],
        #[trigger] l[j],
    ) by {
        lemma_total_take_strict(ls, i, j);
        lemma_total_prefix_le(ls, j);
        lemma_total_prefix_le(ls, i);
    }
}

/// A merge of mergeable packages whose result fits the format's 32-bit
/// fields gives a well-formed package.
pub proof fn lemma_merged_well_formed(base: RpkV, mods: Seq<RpkV>)
    requires
        is_mergeable(base),
        forall|i: int| 0 <= i < mods.len() ==> is_mergeable(#[trigger] mods[i]),
        fits_offsets(base, mods),
        merged(base, mods).entries.len() * crate::entry::ENTRY_LEN <= u32::MAX,
    ensures
        crate::rpk::is_well_formed(merged(base, mods)),
{
    let start = Layered { entries: sorted_by(SortKey::Offset, base.entries), data: base.data };
    crate::entry::lemma_sorted_by_permutes(SortKey::Offset, base.entries);
    lemma_sorted_names_fit(SortKey::Offset, base.entries);
    lemma_lay_packages_sound(start, mods, mods.len() as int);
    let p = lay_packages(start, mods, mods.len() as int);
    let l = laid_out(p);
    let r = merged(base, mods);
    assert(r.data == p.data);
    lemma_laid_out_strict(p);
    crate::entry::lemma_sorted_by_permutes(SortKey::Name, l);
    crate::entry::lemma_sorted_by_permutes(SortKey::Offset, r.entries);
    crate::entry::lemma_sorted_by_is_sorted(SortKey::Offset, r.entries);
    crate::entry::lemma_sorted_unique(SortKey::Offset, l, sorted_by(SortKey::Offset, r.entries));
    assert(names_fit(l)) by {
        assert forall|i: int| 0 <= i < l.len() implies crate::entry::is_field_name(
            #[trigger] l[i].name,
        ) by {
            assert(l[i].name == p.entries[i].name);
        }
    }
    lemma_sorted_names_fit(SortKey::Name, l);
    assert forall|k: int| 0 <= k < r.data.len() implies (#[trigger] r.data[k]).len() == sorted_by(
        SortKey::Offset,
        r.entries,
    )[k].size by {
        assert(l[k].size == p.data[k].len() as u32);
    }
}

proof fn lemma_laid_out_steps(p: Layered)
    requires
        is_paired(p),
        total(lens(p.data)) <= u32::MAX,
        forall|k: int| 0 <= k < p.data.len() ==> (#[trigger] p.data[k]).len() <= u32::MAX,
    ensures
        laid_out(p).len() > 0 ==> laid_out(p)[0].offset == 0,
        forall|i: int| 0 <= i < laid_out(p).len() ==> (#[trigger] laid_out(p)[i]).size == p.data[i].len(),
        forall|i: int|
            0 <= i < laid_out(p).len() - 1 ==> (#[trigger] laid_out(p)[i + 1]).offset == laid_out(p)[i].offset
                + laid_out(p)[i].size,
{
    let l = laid_out(p);
    let ls = lens(p.data);
    if l.len() > 0 {
        assert(ls.take(0) =~= Seq::<u32>::empty());
    }
    assert forall|i: int| 0 <= i < l.len() - 1 implies (#[trigger] l[i + 1]).offset == l[i].offset
        + l[i].size by {
        lemma_total_prefix_le(ls, i);
        lemma_total_prefix_le(ls, i + 1);
        assert(ls.take(i + 1).drop_last() =~= ls.take(i));
        assert(ls[i] == p.data[i].len() as u32);
    }
}

/// The merged package is laid out afresh: taken in the order of their
/// offsets (the order of the blocks), the first entry starts at zero, each
/// entry spans its block, and each starts where the one before it ends.
pub proof fn lemma_merged_layout(base: RpkV, mods: Seq<RpkV>)
    requires
        is_mergeable(base),
        forall|i: int| 0 <= i < mods.len() ==> is_mergeable(#[trigger] mods[i]),
        fits_offsets(base, mods),
    ensures
        ({
            let r = merged(base, mods);
            let l = sorted_by(SortKey::Offset, r.entries);
            &&& l.len() == r.data.len()
            &&& l.len() > 0 ==> l[0].offset == 0
            &&& forall|i: int| 0 <= i < l.len() ==> (#[trigger] l[i]).size == r.data[i].len()
            &&& forall|i: int|
                0 <= i < l.len() - 1 ==> (#[trigger] l[i + 1]).offset == l[i].offset + l[i].size
        }),
{
    let start = Layered { entries: sorted_by(SortKey::Offset, base.entries), data: base.data };
    crate::entry::lemma_sorted_by_permutes(SortKey::Offset, base.entries);
    lemma_sorted_names_fit(SortKey::Offset, base.entries);
    lemma_lay_packages_sound(start, mods, mods.len() as int);
    let p = lay_packages(start, mods, mods.len() as int);
    let l = laid_out(p);
    let r = merged(base, mods);
    assert(r.data == p.data);
    lemma_laid_out_strict(p);
    crate::entry::lemma_sorted_by_permutes(SortKey::Name, l);
    crate::entry::lemma_sorted_by_permutes(SortKey::Offset, r.entries);
    crate::entry::lemma_sorted_by_is_sorted(SortKey::Offset, r.entries);
    crate::entry::lemma_sorted_unique(SortKey::Offset, l, sorted_by(SortKey::Offset, r.entries));
    lemma_laid_out_steps(p);
}

/// The package that a merge writes is read back as written.
pub proof fn lemma_merged_roundtrip(base: RpkV, mods: Seq<RpkV>)
    requires
        is_mergeable(base),
        forall|i: int| 0 <= i < mods.len() ==> is_mergeable(#[trigger] mods[i]),
        fits_offsets(base, mods),
        merged(base, mods).entries.len() * crate::entry::ENTRY_LEN <= u32::MAX,
    ensures
        crate::rpk::parse_rpk(crate::rpk::rpk_bytes(merged(base, mods))) == Some(merged(base, mods)),
{
    lemma_merged_well_formed(base, mods);
    crate::rpk::lemma_rpk_roundtrip(merged(base, mods));
}

} // verus!

verus! {

proof fn lemma_lay_entries_prefix(p: Layered, es: Seq<EntryV>, ds: Seq<Seq<u8>>, n: int)
    ensures
        p.entries.len() <= lay_entries(p, es, ds, n).entries.len(),
        forall|i: int|
            0 <= i < p.entries.len() ==> #[trigger] lay_entries(p, es, ds, n).entries[i]
                == p.entries[i],
    decreases n,
{
    if n > 0 {
        lemma_lay_entries_prefix(p, es, ds, n - 1);
    }
}

proof fn lemma_lay_packages_prefix(p: Layered, mods: Seq<RpkV>, n: int)
    ensures
        p.entries.len() <= lay_packages(p, mods, n).entries.len(),
        forall|i: int|
            0 <= i < p.entries.len() ==> #[trigger] lay_packages(p, mods, n).entries[i]
                == p.entries[i],
    decreases n,
{
    if n > 0 {
        lemma_lay_packages_prefix(p, mods, n - 1);
        let q = lay_packages(p, mods, n - 1);
        let es = sorted_by(SortKey::Offset, mods[n - 1].entries);
        lemma_lay_entries_prefix(q, es, mods[n - 1].data, es.len() as int);
    }
}

/// The merged table is arranged by name and holds exactly the entries laid
/// out afresh; every entry of the game's package keeps a row in it.
pub proof fn lemma_merged_table(base: RpkV, mods: Seq<RpkV>)
    ensures
        crate::entry::is_sorted_by(SortKey::Name, merged(base, mods).entries),
        merged(base, mods).entries.to_multiset() == laid_out(
            lay_packages(
                Layered { entries: sorted_by(SortKey::Offset, base.entries), data: base.data },
                mods,
                mods.len() as int,
            ),
        ).to_multiset(),
        forall|i: int|
            0 <= i < base.entries.len() ==> exists|j: int|
                0 <= j < merged(base, mods).entries.len() && (#[trigger] merged(
                    base,
                    mods,
                ).entries[j]).name == (#[trigger] base.entries[i]).name,
{
    broadcast use vstd::seq_lib::group_to_multiset_ensures;

    let start = Layered { entries: sorted_by(SortKey::Offset, base.entries), data: base.data };
    let p = lay_packages(start, mods, mods.len() as int);
    let l = laid_out(p);
    let t = merged(base, mods).entries;
    crate::entry::lemma_sorted_by_is_sorted(SortKey::Name, l);
    crate::entry::lemma_sorted_by_permutes(SortKey::Name, l);
    crate::entry::lemma_sorted_by_permutes(SortKey::Offset, base.entries);
    lemma_lay_packages_prefix(start, mods, mods.len() as int);
    assert forall|i: int| 0 <= i < base.entries.len() implies exists|j: int|
        0 <= j < t.len() && (#[trigger] t[j]).name == (#[trigger] base.entries[i]).name by {
        let b = base.entries[i];
        assert(base.entries.contains(b));
        assert(start.entries.to_multiset().count(b) > 0);
        assert(start.entries.contains(b));
        let k = choose|k: int| 0 <= k < start.entries.len() && start.entries[k] == b;
        assert(p.entries[k] == b);
        assert(l[k].name == b.name);
        assert(l.contains(l[k]));
        assert(t.to_multiset().count(l[k]) > 0);
        assert(t.contains(l[k]));
        let j = choose|j: int| 0 <= j < t.len() && t[j] == l[k];
        assert(t[j].name == b.name);
    }
}

} // verus!

verus! {

/// The block of the first entry named `name`, in the order of the entries'
/// offsets, that the package holds (what the explorer saves of an entry).
pub fn block_named(r: &Rpk, name: &String) -> (b: Option<Vec<u8>>)
    requires
        r@.data.len() == r@.entries.len(),
    ensures
        match b {
            Some(d) => block_of(
                Layered { entries: sorted_by(SortKey::Offset, r@.entries), data: r@.data },
                name@,
            ) == Some(d@),
            None => block_of(
                Layered { entries: sorted_by(SortKey::Offset, r@.entries), data: r@.data },
                name@,
            ) is None,
        },
{
    let sorted = sort_entries(&SortKey::Offset, &r.entries);
    proof {
        crate::entry::lemma_sorted_by_permutes(SortKey::Offset, r@.entries);
        lemma_find_name(entries_view(sorted@), name@);
    }
    match position_by_name(&sorted, name) {
        Some(i) => {
            let d = copy_block(&r.data[i]);
            assert(r@.data[i as int] == r.data@[i as int]@);
            Some(d)
        },
        None => None,
    }
}

} // verus!
