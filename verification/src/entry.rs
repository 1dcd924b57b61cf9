//! Entries of a Rayform package's table of contents, their on-disk name field,
//! and the two orders in which the toolkit arranges them.

use vstd::prelude::*;

verus! {

/// One row of a package's table of contents: a named block of `size` bytes
/// that starts `offset` bytes after the table.
pub struct Entry {
    pub name: String,
    pub offset: u32,
    pub size: u32,
}

/// The mathematical value of an [`Entry`].
pub struct EntryV {
    pub name: Seq<char>,
    pub offset: u32,
    pub size: u32,
}

impl View for Entry {
    type V = EntryV;

    open spec fn view(&self) -> EntryV {
        EntryV { name: self.name@, offset: self.offset, size: self.size }
    }
}

/// The values of a sequence of entries.
pub open spec fn entries_view(s: Seq<Entry>) -> Seq<EntryV> {
    s.map_values(|e: Entry| e@)
}

impl Clone for Entry {
    fn clone(&self) -> (r: Self)
        ensures
            r@ == self@,
    {
        Entry { name: self.name.clone(), offset: self.offset, size: self.size }
    }
}

impl Entry {
    pub fn new(name: String, offset: u32, size: u32) -> (r: Self)
        ensures
            r@ == (EntryV { name: name@, offset, size }),
    {
        Entry { name, offset, size }
    }
}

// ---------------------------------------------------------------------------
// Orders
// ---------------------------------------------------------------------------

/// Strict lexicographic order of names, character by character.
pub open spec fn name_lt(a: Seq<char>, b: Seq<char>) -> bool
    decreases a.len(),
{
    if a.len() == 0 {
        b.len() > 0
    } else if b.len() == 0 {
        false
    } else if a[0] != b[0] {
        a[0] < b[0]
    } else {
        name_lt(a.drop_first(), b.drop_first())
    }
}

/// The key by which entries are arranged.
pub enum SortKey {
    /// By the position of the entry's block in the package.
    Offset,
    /// By the entry's name.
    Name,
}

/// `a` comes strictly before `b` under `key`.
pub open spec fn key_lt(key: SortKey, a: EntryV, b: EntryV) -> bool {
    match key {
        SortKey::Offset => a.offset < b.offset,
        SortKey::Name => name_lt(a.name, b.name),
    }
}

/// `a` does not come after `b` under `key`.
pub open spec fn key_le(key: SortKey, a: EntryV, b: EntryV) -> bool {
    !key_lt(key, b, a)
}

/// Names that are not ordered either way are equal.
pub proof fn lemma_name_trichotomy(a: Seq<char>, b: Seq<char>)
    ensures
        name_lt(a, b) || name_lt(b, a) || a == b,
        !(name_lt(a, b) && name_lt(b, a)),
    decreases a.len(),
{
    if a.len() > 0 && b.len() > 0 && a[0] == b[0] {
        lemma_name_trichotomy(a.drop_first(), b.drop_first());
        if a.drop_first() == b.drop_first() {
            assert(a =~= seq![a[0]] + a.drop_first());
            assert(b =~= seq![b[0]] + b.drop_first());
        }
    } else if a.len() > 0 && b.len() > 0 {
    } else if a.len() == 0 && b.len() == 0 {
        assert(a =~= b);
    }
}

/// The strict name order is transitive.
pub proof fn lemma_name_transitive(a: Seq<char>, b: Seq<char>, c: Seq<char>)
    requires
        name_lt(a, b),
        name_lt(b, c),
    ensures
        name_lt(a, c),
    decreases a.len(),
{
    if a.len() > 0 && b.len() > 0 && c.len() > 0 && a[0] == b[0] && b[0] == c[0] {
        lemma_name_transitive(a.drop_first(), b.drop_first(), c.drop_first());
    }
}

/// `key_lt` is a strict weak order whose incomparability is `key_le` both ways.
pub proof fn lemma_key_order(key: SortKey, a: EntryV, b: EntryV, c: EntryV)
    ensures
        !key_lt(key, a, a),
        key_lt(key, a, b) ==> key_le(key, a, b),
        key_le(key, a, b) || key_le(key, b, a),
        key_le(key, a, b) && key_le(key, b, c) ==> key_le(key, a, c),
        key_lt(key, a, b) && key_le(key, b, c) ==> key_lt(key, a, c),
        key_le(key, a, b) && key_lt(key, b, c) ==> key_lt(key, a, c),
{
    match key {
        SortKey::Offset => {},
        SortKey::Name => {
            lemma_name_trichotomy(a.name, a.name);
            lemma_name_trichotomy(a.name, b.name);
            lemma_name_trichotomy(b.name, c.name);
            lemma_name_trichotomy(a.name, c.name);
            if name_lt(c.name, a.name) && name_lt(a.name, b.name) {
                lemma_name_transitive(c.name, a.name, b.name);
            }
            if name_lt(b.name, c.name) && name_lt(c.name, a.name) {
                lemma_name_transitive(b.name, c.name, a.name);
            }
            if name_lt(a.name, b.name) && name_lt(b.name, c.name) {
                lemma_name_transitive(a.name, b.name, c.name);
            }
        },
    }
}

/// Whether `a`'s name comes strictly before `b`'s.
pub fn name_less(a: &String, b: &String) -> (r: bool)
    ensures
        r == name_lt(a@, b@),
{
    let sa = a.as_str();
    let sb = b.as_str();
    let la = sa.unicode_len();
    let lb = sb.unicode_len();
    let mut i: usize = 0;
    assert(a@.skip(0) =~= a@ && b@.skip(0) =~= b@);
    while i < la && i < lb
        invariant
            la == a@.len(),
            lb == b@.len(),
            sa@ == a@,
            sb@ == b@,
            i <= la,
            i <= lb,
            name_lt(a@, b@) == name_lt(a@.skip(i as int), b@.skip(i as int)),
        decreases la - i,
    {
        let x = sa.get_char(i);
        let y = sb.get_char(i);
        let ghost ra = a@.skip(i as int);
        let ghost rb = b@.skip(i as int);
        assert(ra[0] == x && rb[0] == y);
        if x != y {
            return x < y;
        }
        assert(ra.drop_first() =~= a@.skip(i + 1));
        assert(rb.drop_first() =~= b@.skip(i + 1));
        i = i + 1;
    }
    i == la && i < lb
}

/// Whether entry `a` comes strictly before entry `b` under `key`.
pub fn entry_less(key: &SortKey, a: &Entry, b: &Entry) -> (r: bool)
    ensures
        r == key_lt(*key, a@, b@),
{
    match key {
        SortKey::Offset => a.offset < b.offset,
        SortKey::Name => name_less(&a.name, &b.name),
    }
}

// ---------------------------------------------------------------------------
// Stable sorting
// ---------------------------------------------------------------------------

/// Where `x` goes in the arranged sequence `t`: after every element that does
/// not come after it.
pub open spec fn insert_pos(key: SortKey, t: Seq<EntryV>, x: EntryV) -> int
    decreases t.len(),
{
    if t.len() == 0 {
        0
    } else if key_lt(key, x, t.last()) {
        insert_pos(key, t.drop_last(), x)
    } else {
        t.len() as int
    }
}

/// The stable arrangement of `s` under `key`: each element in turn is placed
/// after every earlier element that does not come after it.
pub open spec fn sorted_by(key: SortKey, s: Seq<EntryV>) -> Seq<EntryV>
    decreases s.len(),
{
    if s.len() == 0 {
        s
    } else {
        let t = sorted_by(key, s.drop_last());
        t.insert(insert_pos(key, t, s.last()), s.last())
    }
}

/// Every element comes no later than every element after it.
pub open spec fn is_sorted_by(key: SortKey, s: Seq<EntryV>) -> bool {
    forall|i: int, j: int| 0 <= i < j < s.len() ==> key_le(key, #[trigger] s[i], #[trigger] s[j])
}

proof fn lemma_insert_pos(key: SortKey, t: Seq<EntryV>, x: EntryV)
    ensures
        0 <= insert_pos(key, t, x) <= t.len(),
        forall|j: int| insert_pos(key, t, x) <= j < t.len() ==> key_lt(key, x, #[trigger] t[j]),
        insert_pos(key, t, x) > 0 ==> !key_lt(key, x, t[insert_pos(key, t, x) - 1]),
    decreases t.len(),
{
    if t.len() > 0 && key_lt(key, x, t.last()) {
        lemma_insert_pos(key, t.drop_last(), x);
        let p = insert_pos(key, t, x);
        assert forall|j: int| p <= j < t.len() implies key_lt(key, x, #[trigger] t[j]) by {
            if j < t.len() - 1 {
                assert(t[j] == t.drop_last()[j]);
            }
        }
        if p > 0 {
            assert(t[p - 1] == t.drop_last()[p - 1]);
        }
    }
}

proof fn lemma_insert_sorted(key: SortKey, t: Seq<EntryV>, x: EntryV)
    requires
        is_sorted_by(key, t),
    ensures
        is_sorted_by(key, t.insert(insert_pos(key, t, x), x)),
{
    lemma_insert_pos(key, t, x);
    let p = insert_pos(key, t, x);
    let u = t.insert(p, x);
    assert forall|i: int, j: int| 0 <= i < j < u.len() implies key_le(
        key,
        #[trigger] u[i],
        #[trigger] u[j],
    ) by {
        if i < p && j < p {
            assert(u[i] == t[i] && u[j] == t[j]);
        } else if i < p && j == p {
            lemma_key_order(key, t[p - 1], x, x);
            lemma_key_order(key, t[i], t[p - 1], x);
            if i < p - 1 {
                assert(key_le(key, t[i], t[p - 1]));
            }
        } else if i < p {
            assert(u[i] == t[i] && u[j] == t[j - 1]);
        } else if i == p {
            assert(u[j] == t[j - 1]);
            lemma_key_order(key, x, t[j - 1], t[j - 1]);
        } else {
            assert(u[i] == t[i - 1] && u[j] == t[j - 1]);
        }
    }
}

/// The stable arrangement is in order.
pub proof fn lemma_sorted_by_is_sorted(key: SortKey, s: Seq<EntryV>)
    ensures
        is_sorted_by(key, sorted_by(key, s)),
    decreases s.len(),
{
    if s.len() > 0 {
        lemma_sorted_by_is_sorted(key, s.drop_last());
        lemma_insert_sorted(key, sorted_by(key, s.drop_last()), s.last());
    }
}

/// The stable arrangement holds the same elements, as often, as the sequence.
pub proof fn lemma_sorted_by_permutes(key: SortKey, s: Seq<EntryV>)
    ensures
        sorted_by(key, s).to_multiset() == s.to_multiset(),
        sorted_by(key, s).len() == s.len(),
    decreases s.len(),
{
    broadcast use vstd::seq_lib::group_to_multiset_ensures;

    if s.len() > 0 {
        let t = sorted_by(key, s.drop_last());
        lemma_sorted_by_permutes(key, s.drop_last());
        lemma_insert_pos(key, t, s.last());
        let p = insert_pos(key, t, s.last());
        vstd::seq_lib::to_multiset_insert(t, p, s.last());
        assert(s =~= s.drop_last().push(s.last()));
    }
}

/// The entries of `v`, stably arranged under `key`.
pub fn sort_entries(key: &SortKey, v: &Vec<Entry>) -> (r: Vec<Entry>)
    ensures
        entries_view(r@) == sorted_by(*key, entries_view(v@)),
{
    let mut out: Vec<Entry> = Vec::new();
    let mut i: usize = 0;
    while i < v.len()
        invariant
            i <= v.len(),
            entries_view(out@) == sorted_by(*key, entries_view(v@.take(i as int))),
        decreases v.len() - i,
    {
        let x = v[i].clone();
        let ghost t = entries_view(out@);
        let mut p: usize = out.len();
        assert(t.take(p as int) =~= t);
        while p > 0 && entry_less(key, &x, &out[p - 1])
            invariant
                p <= out.len(),
                t == entries_view(out@),
                insert_pos(*key, t, x@) == insert_pos(*key, t.take(p as int), x@),
            decreases p,
        {
            assert(t.take(p as int).drop_last() =~= t.take(p - 1));
            assert(t.take(p as int).last() == t[p - 1]);
            p = p - 1;
        }
        proof {
            if p > 0 {
                assert(t.take(p as int).last() == t[p - 1]);
            }
        }
        out.insert(p, x);
        proof {
            let vi = entries_view(v@.take(i + 1));
            assert(vi.drop_last() =~= entries_view(v@.take(i as int)));
            assert(vi.last() == v@[i as int]@);
            assert(entries_view(out@) =~= t.insert(p as int, x@));
        }
        i = i + 1;
    }
    assert(v@.take(v.len() as int) =~= v@);
    out
}

} // verus!

verus! {

// ---------------------------------------------------------------------------
// The 32-byte table row
// ---------------------------------------------------------------------------

/// Length of one table row on disk: a 16-byte name, offset, size, 8 bytes of padding.
pub const ENTRY_LEN: usize = 32;

/// Length of the name field of a table row.
pub const NAME_LEN: usize = 16;

/// The name stored in a name field: its bytes up to the first zero byte, each
/// taken as the character of that code.
pub open spec fn name_of_field(f: Seq<u8>) -> Seq<char>
    decreases f.len(),
{
    if f.len() == 0 || f[0] == 0 {
        Seq::empty()
    } else {
        seq![f[0] as char] + name_of_field(f.drop_first())
    }
}

/// The name field written for `name`: the low byte of each of its first 16
/// characters, then zero bytes.
pub open spec fn field_of_name(name: Seq<char>) -> Seq<u8> {
    Seq::new(NAME_LEN as nat, |i: int| if i < name.len() { name[i] as u8 } else { 0u8 })
}

/// A name that a name field can hold unchanged: at most 16 characters, each
/// a nonzero single byte.
pub open spec fn is_field_name(name: Seq<char>) -> bool {
    &&& name.len() <= NAME_LEN
    &&& forall|i: int| 0 <= i < name.len() ==> 0 < (#[trigger] name[i] as int) < 256
}

/// The table row stored at `pos` in `s`.
pub open spec fn entry_at(s: Seq<u8>, pos: int) -> EntryV {
    EntryV {
        name: name_of_field(s.subrange(pos, pos + NAME_LEN)),
        offset: crate::bytes::u32_at(s, pos + 16),
        size: crate::bytes::u32_at(s, pos + 20),
    }
}

/// The 32 bytes written for an entry.
pub open spec fn entry_bytes(e: EntryV) -> Seq<u8> {
    field_of_name(e.name) + crate::bytes::u32_bytes(e.offset) + crate::bytes::u32_bytes(e.size)
        + Seq::new(8, |i: int| 0u8)
}

proof fn lemma_name_of_field_skip(f: Seq<u8>, i: int)
    requires
        0 <= i < f.len(),
        f[i] != 0,
    ensures
        name_of_field(f.skip(i)) == seq![f[i] as char] + name_of_field(f.skip(i + 1)),
{
    assert(f.skip(i).drop_first() =~= f.skip(i + 1));
}

/// Reads a name field (the 16 bytes at `pos`).
fn read_name(s: &[u8], pos: usize) -> (r: String)
    requires
        pos + NAME_LEN <= s@.len(),
    ensures
        r@ == name_of_field(s@.subrange(pos as int, pos + NAME_LEN)),
{
    let ghost f = s@.subrange(pos as int, pos + NAME_LEN);
    let mut out = String::new();
    let mut i: usize = 0;
    assert(f.skip(0) =~= f);
    while i < NAME_LEN
        invariant
            pos + NAME_LEN <= s.len(),
            f == s@.subrange(pos as int, pos + NAME_LEN),
            i <= NAME_LEN,
            name_of_field(f) == out@ + name_of_field(f.skip(i as int)),
        decreases NAME_LEN - i,
    {
        let b = s[pos + i];
        assert(f[i as int] == b);
        if b == 0 {
            assert(name_of_field(f.skip(i as int)) =~= Seq::<char>::empty());
            assert(out@ + Seq::<char>::empty() =~= out@);
            return out;
        }
        proof {
            lemma_name_of_field_skip(f, i as int);
            assert(out@ + (seq![b as char] + name_of_field(f.skip(i + 1))) =~= out@.push(
                b as char,
            ) + name_of_field(f.skip(i + 1)));
        }
        crate::text::push_char(&mut out, b as char);
        i = i + 1;
    }
    assert(name_of_field(f.skip(NAME_LEN as int)) =~= Seq::<char>::empty());
    assert(out@ + Seq::<char>::empty() =~= out@);
    out
}

/// Appends the name field for `name`; characters after the sixteenth are dropped.
fn write_name(out: &mut Vec<u8>, name: &String)
    ensures
        final(out)@ == old(out)@ + field_of_name(name@),
{
    let s = name.as_str();
    let n = s.unicode_len();
    let mut i: usize = 0;
    while i < NAME_LEN
        invariant
            n == name@.len(),
            s@ == name@,
            i <= NAME_LEN,
            out@ == old(out)@ + field_of_name(name@).take(i as int),
        decreases NAME_LEN - i,
    {
        let b: u8 = if i < n {
            s.get_char(i) as u8
        } else {
            0
        };
        out.push(b);
        assert(field_of_name(name@).take(i + 1) =~= field_of_name(name@).take(i as int).push(b));
        i = i + 1;
    }
    assert(field_of_name(name@).take(NAME_LEN as int) =~= field_of_name(name@));
}

impl Entry {
    /// Reads the table row at `pos`, or `None` when fewer than 32 bytes remain.
    pub fn read(s: &[u8], pos: usize) -> (r: Option<Entry>)
        ensures
            r is Some <==> pos + ENTRY_LEN <= s@.len(),
            r matches Some(e) ==> e@ == entry_at(s@, pos as int),
    {
        if pos > s.len() || s.len() - pos < ENTRY_LEN {
            return None;
        }
        let name = read_name(s, pos);
        let offset = crate::bytes::read_u32_le(s, pos + 16).unwrap();
        let size = crate::bytes::read_u32_le(s, pos + 20).unwrap();
        Some(Entry { name, offset, size })
    }

    /// Appends the 32-byte table row of this entry.
    pub fn write(&self, out: &mut Vec<u8>)
        ensures
            final(out)@ == old(out)@ + entry_bytes(self@),
    {
        let ghost start = out@;
        write_name(out, &self.name);
        crate::bytes::push_u32_le(out, self.offset);
        crate::bytes::push_u32_le(out, self.size);
        let mut k: usize = 0;
        while k < 8
            invariant
                k <= 8,
                out@ == start + field_of_name(self.name@) + crate::bytes::u32_bytes(self.offset)
                    + crate::bytes::u32_bytes(self.size) + Seq::new(k as nat, |i: int| 0u8),
            decreases 8 - k,
        {
            out.push(0u8);
            assert(Seq::new((k + 1) as nat, |i: int| 0u8) =~= Seq::new(k as nat, |i: int| 0u8).push(
                0u8,
            ));
            k = k + 1;
        }
        assert(start + field_of_name(self.name@) + crate::bytes::u32_bytes(self.offset)
            + crate::bytes::u32_bytes(self.size) + Seq::new(8, |i: int| 0u8) =~= start + entry_bytes(
            self@,
        ));
    }
}

} // verus!

verus! {

proof fn lemma_byte_char(c: char)
    requires
        0 < (c as int) < 256,
    ensures
        (c as u8) as char == c,
        (c as u8) != 0,
{
}

proof fn lemma_name_field_from(name: Seq<char>, f: Seq<u8>)
    requires
        forall|i: int| 0 <= i < name.len() ==> 0 < (#[trigger] name[i] as int) < 256,
        name.len() <= f.len(),
        forall|i: int| 0 <= i < name.len() ==> #[trigger] f[i] == name[i] as u8,
        name.len() == f.len() || f[name.len() as int] == 0,
    ensures
        name_of_field(f) == name,
    decreases name.len(),
{
    if name.len() == 0 {
        assert(name =~= Seq::<char>::empty());
    } else {
        lemma_byte_char(name[0]);
        lemma_name_field_from(name.drop_first(), f.drop_first());
        assert(name =~= seq![name[0]] + name.drop_first());
    }
}

/// A name that the field can hold is read back as written.
pub proof fn lemma_name_field_roundtrip(name: Seq<char>)
    requires
        is_field_name(name),
    ensures
        name_of_field(field_of_name(name)) == name,
{
    lemma_name_field_from(name, field_of_name(name));
}

/// The name kept by a name field: its first 16 characters.
pub open spec fn kept_name(name: Seq<char>) -> Seq<char> {
    if name.len() <= NAME_LEN {
        name
    } else {
        name.take(NAME_LEN as int)
    }
}

/// A name of single-byte, nonzero characters, however long, is read back from
/// its field cut to its first 16 characters.
pub proof fn lemma_name_field_truncates(name: Seq<char>)
    requires
        forall|i: int| 0 <= i < name.len() ==> 0 < (#[trigger] name[i] as int) < 256,
    ensures
        name_of_field(field_of_name(name)) == kept_name(name),
{
    let k = kept_name(name);
    assert(field_of_name(name) =~= field_of_name(k));
    assert(is_field_name(k)) by {
        assert forall|i: int| 0 <= i < k.len() implies 0 < (#[trigger] k[i] as int) < 256 by {
            assert(k[i] == name[i]);
        }
    }
    lemma_name_field_roundtrip(k);
}

/// A table row written for an entry whose name holds single-byte, nonzero
/// characters is read back with the name cut to its first 16 characters.
pub proof fn lemma_entry_truncated_roundtrip(e: EntryV, s: Seq<u8>, pos: int)
    requires
        forall|i: int| 0 <= i < e.name.len() ==> 0 < (#[trigger] e.name[i] as int) < 256,
        0 <= pos,
        pos + ENTRY_LEN <= s.len(),
        s.subrange(pos, pos + ENTRY_LEN) == entry_bytes(e),
    ensures
        entry_at(s, pos) == (EntryV { name: kept_name(e.name), ..e }),
{
    let k = EntryV { name: kept_name(e.name), ..e };
    assert(field_of_name(e.name) =~= field_of_name(k.name));
    assert(entry_bytes(e) =~= entry_bytes(k));
    lemma_name_field_truncates(e.name);
    assert(is_field_name(k.name)) by {
        assert forall|i: int| 0 <= i < k.name.len() implies 0 < (#[trigger] k.name[i] as int) < 256 by {
            assert(k.name[i] == e.name[i]);
        }
    }
    lemma_entry_roundtrip(k, s, pos);
}

/// A table row is read back as written when its name fits the field.
pub proof fn lemma_entry_roundtrip(e: EntryV, s: Seq<u8>, pos: int)
    requires
        is_field_name(e.name),
        0 <= pos,
        pos + ENTRY_LEN <= s.len(),
        s.subrange(pos, pos + ENTRY_LEN) == entry_bytes(e),
    ensures
        entry_at(s, pos) == e,
{
    let b = entry_bytes(e);
    assert(s.subrange(pos, pos + NAME_LEN) =~= field_of_name(e.name)) by {
        assert forall|i: int| 0 <= i < NAME_LEN implies s.subrange(pos, pos + NAME_LEN)[i]
            == field_of_name(e.name)[i] by {
            assert(s[pos + i] == b[i]);
        }
    }
    lemma_name_field_roundtrip(e.name);
    crate::bytes::lemma_u32_roundtrip(e.offset);
    crate::bytes::lemma_u32_roundtrip(e.size);
    let ob = crate::bytes::u32_bytes(e.offset);
    let sb = crate::bytes::u32_bytes(e.size);
    assert(s[pos + 16] == ob[0] && s[pos + 17] == ob[1] && s[pos + 18] == ob[2] && s[pos + 19]
        == ob[3]) by {
        assert(s[pos + 16] == b[16] && s[pos + 17] == b[17] && s[pos + 18] == b[18] && s[pos + 19]
            == b[19]);
    }
    assert(s[pos + 20] == sb[0] && s[pos + 21] == sb[1] && s[pos + 22] == sb[2] && s[pos + 23]
        == sb[3]) by {
        assert(s[pos + 20] == b[20] && s[pos + 21] == b[21] && s[pos + 22] == b[22] && s[pos + 23]
            == b[23]);
    }
}

} // verus!

verus! {

/// Every element comes strictly before every element after it.
pub open spec fn is_strictly_sorted_by(key: SortKey, s: Seq<EntryV>) -> bool {
    forall|i: int, j: int| 0 <= i < j < s.len() ==> key_lt(key, #[trigger] s[i], #[trigger] s[j])
}

/// A strictly ordered sequence is the only ordered arrangement of its elements.
pub proof fn lemma_sorted_unique(key: SortKey, a: Seq<EntryV>, b: Seq<EntryV>)
    requires
        is_strictly_sorted_by(key, a),
        is_sorted_by(key, b),
        a.to_multiset() == b.to_multiset(),
    ensures
        a == b,
    decreases a.len(),
{
    broadcast use vstd::seq_lib::group_to_multiset_ensures;

    assert(a.len() == b.len()) by {
        vstd::seq_lib::to_multiset_len(a);
        vstd::seq_lib::to_multiset_len(b);
    }
    if a.len() > 0 {
        let n = a.len() - 1;
        let x = a[n];
        let y = b[n];
        assert(a.to_multiset().count(x) > 0) by {
            assert(a.contains(x));
        }
        assert(b.contains(x));
        let j = choose|j: int| 0 <= j < b.len() && b[j] == x;
        assert(a.to_multiset().count(y) > 0) by {
            assert(b.contains(y));
        }
        assert(a.contains(y));
        let i = choose|i: int| 0 <= i < a.len() && a[i] == y;
        if i < n {
            assert(key_lt(key, a[i], a[n]));
            if j < n {
                assert(key_le(key, b[j], b[n]));
            }
            lemma_key_order(key, y, x, y);
        }
        assert(x == y);
        assert(a.drop_last() =~= a.remove(n));
        assert(b.drop_last() =~= b.remove(n));
        assert(a.drop_last().to_multiset() == b.drop_last().to_multiset());
        assert forall|p: int, q: int| 0 <= p < q < a.drop_last().len() implies key_lt(
            key,
            #[trigger] a.drop_last()[p],
            #[trigger] a.drop_last()[q],
        ) by {
            assert(a.drop_last()[p] == a[p] && a.drop_last()[q] == a[q]);
        }
        assert forall|p: int, q: int| 0 <= p < q < b.drop_last().len() implies key_le(
            key,
            #[trigger] b.drop_last()[p],
            #[trigger] b.drop_last()[q],
        ) by {
            assert(b.drop_last()[p] == b[p] && b.drop_last()[q] == b[q]);
        }
        lemma_sorted_unique(key, a.drop_last(), b.drop_last());
        assert(a =~= a.drop_last().push(x));
        assert(b =~= b.drop_last().push(y));
    }
}

} // verus!
