//! The package explorer: the entries of an opened package, narrowed by a
//! fuzzy search on their names, and the export of one entry's bytes.

use vstd::prelude::*;

use crate::entry::{entries_view, sorted_by, Entry, EntryV, SortKey};
use crate::merge::{block_named, block_of, Layered};
use crate::mods::strings_view;
use crate::rpk::Rpk;

verus! {

#[verifier::external_type_specification]
#[verifier::external_body]
#[verifier::reject_recursive_types(T)]
pub struct ExNucleo<T: Sync + Send + 'static>(nucleo::Nucleo<T>);

/// The items injected into a matcher, in the order injected: each item's
/// value with the text it is matched by.
pub uninterp spec fn matcher_items(m: nucleo::Nucleo<usize>) -> Seq<(usize, Seq<char>)>;

/// The rest of a matcher's state: the query its pattern holds, whether it has
/// ticked, and the positions, among its items, of the matches in its
/// snapshot, best first.
pub uninterp spec fn matcher_state(m: nucleo::Nucleo<usize>) -> (Seq<char>, bool, Seq<int>);

/// Whether nucleo's matcher, with its default configuration, case ignored and
/// smart normalization, matches the text `text` with the query `query`.
pub uninterp spec fn fuzzy_match(text: Seq<char>, query: Seq<char>) -> bool;

/// Calls `nucleo::Nucleo::new` with the default configuration, a notifier
/// that does nothing, one worker thread per hardware thread and one column: a
/// matcher with no item, an empty query, not ticked yet, whose snapshot holds
/// no match.
#[verifier::external_body]
fn new_matcher() -> (m: nucleo::Nucleo<usize>)
    ensures
        matcher_items(m) == Seq::<(usize, Seq<char>)>::empty(),
        matcher_state(m) == (Seq::<char>::empty(), false, Seq::<int>::empty()),
{
    nucleo::Nucleo::new(nucleo::Config::DEFAULT, std::sync::Arc::new(|| {}), None, 1)
}

/// Calls `nucleo::Injector::push` on the matcher's injector: adds the item
/// `value`, matched by the text `name`, after the items it holds.
#[verifier::external_body]
fn inject(m: &mut nucleo::Nucleo<usize>, value: usize, name: &str)
    ensures
        matcher_items(*final(m)) == matcher_items(*old(m)).push((value, name@)),
        matcher_state(*final(m)) == matcher_state(*old(m)),
{
    m.injector().push(value, |_, columns| columns[0] = name.into());
}

/// Calls `nucleo::pattern::MultiPattern::reparse` on the matcher's pattern:
/// the query becomes `query`, matched with case ignored and smart
/// normalization; the snapshot stays as it was.
#[verifier::external_body]
fn set_query(m: &mut nucleo::Nucleo<usize>, query: &str)
    ensures
        matcher_items(*final(m)) == matcher_items(*old(m)),
        matcher_state(*final(m)) == (query@, matcher_state(*old(m)).1, matcher_state(*old(m)).2),
{
    m.pattern.reparse(0, query, nucleo::pattern::CaseMatching::Ignore, nucleo::pattern::Normalization::Smart, false);
}

/// Calls `nucleo::Nucleo::tick` for the first time on the matcher, waiting at
/// most `timeout` milliseconds for its worker. The first tick starts the
/// worker on the query and the items held; the snapshot then holds the
/// worker's matches when it finished in time, and none otherwise: when it
/// holds any, they are the positions of exactly the items whose text matches
/// the query, each once. Whether the worker finished in time is the clock's.
#[verifier::external_body]
fn tick(m: &mut nucleo::Nucleo<usize>, timeout: u64)
    requires
        !matcher_state(*old(m)).1,
    ensures
        matcher_items(*final(m)) == matcher_items(*old(m)),
        matcher_state(*final(m)).0 == matcher_state(*old(m)).0,
        matcher_state(*final(m)).1,
        matcher_state(*final(m)).2.no_duplicates(),
        forall|k: int|
            0 <= k < matcher_state(*final(m)).2.len() ==> {
                let j = #[trigger] matcher_state(*final(m)).2[k];
                &&& 0 <= j < matcher_items(*final(m)).len()
                &&& fuzzy_match(matcher_items(*final(m))[j].1, matcher_state(*old(m)).0)
            },
        matcher_state(*final(m)).2.len() == 0 || forall|j: int|
            0 <= j < matcher_items(*final(m)).len() ==> (fuzzy_match(
                #[trigger] matcher_items(*final(m))[j].1,
                matcher_state(*old(m)).0,
            ) <==> matcher_state(*final(m)).2.contains(j)),
{
    m.tick(timeout);
}

/// Calls `nucleo::Snapshot::matched_items` on the matcher's snapshot over all
/// its matches: the values of the matched items, best first.
#[verifier::external_body]
fn matched(m: &nucleo::Nucleo<usize>) -> (r: Vec<usize>)
    requires
        forall|k: int|
            0 <= k < matcher_state(*m).2.len() ==> 0 <= #[trigger] matcher_state(*m).2[k]
                < matcher_items(*m).len(),
    ensures
        r@ == matcher_state(*m).2.map_values(|j: int| matcher_items(*m)[j].0),
{
    m.snapshot().matched_items(..).map(|item| *item.data).collect()
}

/// Indices of `names`, each at most once, whose names match `query`.
pub open spec fn is_match_of(m: Seq<usize>, names: Seq<Seq<char>>, query: Seq<char>) -> bool {
    &&& m.no_duplicates()
    &&& forall|k: int| 0 <= k < m.len() ==> (#[trigger] m[k]) < names.len()
    &&& forall|k: int| 0 <= k < m.len() ==> fuzzy_match(names[#[trigger] m[k] as int], query)
}

/// Each name with its index, as handed to the matcher.
pub open spec fn indexed(names: Seq<Seq<char>>) -> Seq<(usize, Seq<char>)> {
    Seq::new(names.len(), |k: int| (k as usize, names[k]))
}

/// The matcher `mt` holds every name with its index, in order, and the query.
pub open spec fn fed(mt: nucleo::Nucleo<usize>, names: Seq<Seq<char>>, query: Seq<char>) -> bool {
    matcher_items(mt) == indexed(names) && matcher_state(mt).0 == query
}

/// Either nothing matched in time, or `m` holds the index of every name that
/// matches `query`, and no other.
pub open spec fn is_full_match(m: Seq<usize>, names: Seq<Seq<char>>, query: Seq<char>) -> bool {
    m.len() == 0 || forall|j: int|
        0 <= j < names.len() ==> (fuzzy_match(#[trigger] names[j], query) <==> m.contains(j as usize))
}

/// The indices of the names that the fuzzy matcher finds for `query`, best
/// first, after one tick of at most ten milliseconds: every name is handed to
/// the matcher with its index, with the query; the result is empty when the
/// matcher is late, and otherwise the index of each matching name, once.
fn fuzzy_matches(names: &Vec<String>, query: &str) -> (r: Vec<usize>)
    ensures
        is_match_of(r@, strings_view(names@), query@),
        is_full_match(r@, strings_view(names@), query@),
        exists|mt: nucleo::Nucleo<usize>| #[trigger] fed(mt, strings_view(names@), query@),
{
    let ghost nv = strings_view(names@);
    let mut m = new_matcher();
    let mut i: usize = 0;
    while i < names.len()
        invariant
            i <= names@.len(),
            nv == strings_view(names@),
            matcher_items(m) == Seq::new(i as nat, |k: int| (k as usize, nv[k])),
            !matcher_state(m).1,
        decreases names.len() - i,
    {
        inject(&mut m, i, names[i].as_str());
        assert(Seq::new((i + 1) as nat, |k: int| (k as usize, nv[k])) =~= Seq::new(
            i as nat,
            |k: int| (k as usize, nv[k]),
        ).push((i, names@[i as int]@)));
        i = i + 1;
    }
    set_query(&mut m, query);
    proof {
        assert(matcher_items(m) =~= indexed(nv));
        assert(fed(m, nv, query@));
    }
    tick(&mut m, 10);
    let r = matched(&m);
    proof {
        let items = matcher_items(m);
        let ps = matcher_state(m).2;
        assert(items == indexed(nv));
        assert(fed(m, nv, query@));
        assert forall|k: int| 0 <= k < r@.len() implies (#[trigger] r@[k]) < names@.len()
            && fuzzy_match(nv[r@[k] as int], query@) && r@[k] == ps[k] as usize by {
            let j = ps[k];
            assert(r@[k] == items[j].0);
        }
        assert forall|a: int, b: int| 0 <= a < r@.len() && 0 <= b < r@.len() && a != b implies r@[a]
            != r@[b] by {
            assert(r@[a] == items[ps[a]].0 && r@[b] == items[ps[b]].0);
            assert(ps[a] != ps[b]);
        }
        if r@.len() > 0 {
            assert forall|j: int| 0 <= j < nv.len() implies (fuzzy_match(#[trigger] nv[j], query@)
                <==> r@.contains(j as usize)) by {
                assert(items[j] == (j as usize, nv[j]));
                assert(ps.len() == r@.len());
                assert(fuzzy_match(matcher_items(m)[j].1, query@) <==> ps.contains(j));
                if ps.contains(j) {
                    let k = choose|k: int| 0 <= k < ps.len() && ps[k] == j;
                    assert(r@[k] == ps[k] as usize);
                }
                if r@.contains(j as usize) {
                    let k = choose|k: int| 0 <= k < r@.len() && r@[k] == j as usize;
                    assert(r@[k] == ps[k] as usize);
                    assert(0 <= ps[k] < items.len());
                    assert(ps[k] == j);
                }
            }
        }
    }
    r
}

/// What the explorer lists for the matched indices `matched`: the entries at
/// those indices, in that order, or every entry when nothing matched.
pub open spec fn results_of(entries: Seq<EntryV>, matched: Seq<usize>) -> Seq<EntryV> {
    if matched.len() == 0 {
        entries
    } else {
        matched.map_values(|i: usize| entries[i as int])
    }
}

/// The entries that the explorer lists for the matched indices `matched`.
pub fn search_results(entries: &Vec<Entry>, matched: &Vec<usize>) -> (r: Vec<Entry>)
    requires
        forall|k: int| 0 <= k < matched@.len() ==> #[trigger] matched@[k] < entries@.len(),
    ensures
        entries_view(r@) == results_of(entries_view(entries@), matched@),
{
    let mut out: Vec<Entry> = Vec::new();
    if matched.len() == 0 {
        let mut i: usize = 0;
        while i < entries.len()
            invariant
                i <= entries@.len(),
                entries_view(out@) == entries_view(entries@).take(i as int),
            decreases entries.len() - i,
        {
            let ghost before = entries_view(out@);
            out.push(entries[i].clone());
            assert(entries_view(out@) =~= before.push(entries_view(entries@)[i as int]));
            i = i + 1;
        }
        assert(entries_view(entries@).take(i as int) =~= entries_view(entries@));
    } else {
        let ghost want = matched@.map_values(|i: usize| entries_view(entries@)[i as int]);
        let mut k: usize = 0;
        while k < matched.len()
            invariant
                k <= matched@.len(),
                forall|j: int| 0 <= j < matched@.len() ==> #[trigger] matched@[j] < entries@.len(),
                want == matched@.map_values(|i: usize| entries_view(entries@)[i as int]),
                entries_view(out@) == want.take(k as int),
            decreases matched.len() - k,
        {
            let ghost before = entries_view(out@);
            let j = matched[k];
            out.push(entries[j].clone());
            assert(entries_view(out@) =~= before.push(want[k as int]));
            k = k + 1;
        }
        assert(want.take(k as int) =~= want);
    }
    out
}

/// The names of entries, in order.
pub open spec fn entry_names(es: Seq<EntryV>) -> Seq<Seq<char>> {
    es.map_values(|e: EntryV| e.name)
}

/// The names of entries, in order.
fn names_of(entries: &Vec<Entry>) -> (r: Vec<String>)
    ensures
        strings_view(r@) == entry_names(entries_view(entries@)),
{
    let ghost want = entries_view(entries@).map_values(|e: EntryV| e.name);
    let mut out: Vec<String> = Vec::new();
    let mut i: usize = 0;
    while i < entries.len()
        invariant
            i <= entries@.len(),
            want == entries_view(entries@).map_values(|e: EntryV| e.name),
            strings_view(out@) == want.take(i as int),
        decreases entries.len() - i,
    {
        let ghost before = strings_view(out@);
        out.push(entries[i].name.clone());
        assert(strings_view(out@) =~= before.push(want[i as int]));
        i = i + 1;
    }
    assert(want.take(i as int) =~= want);
    out
}

/// The explorer: the query typed, the package opened, if any, and the
/// entries listed.
pub struct Explorer {
    pub query: String,
    pub rpk: Option<Rpk>,
    pub content: Vec<Entry>,
}

impl Explorer {
    /// An explorer with no package opened.
    pub fn new() -> (r: Self)
        ensures
            r.query@.len() == 0,
            r.rpk is None,
            r.content@.len() == 0,
    {
        Explorer { query: String::new(), rpk: None, content: Vec::new() }
    }

    /// Opens `rpk`, listing all its entries, or closes the package when
    /// `None`; the query is cleared.
    pub fn select(&mut self, rpk: Option<Rpk>)
        ensures
            final(self).query@.len() == 0,
            match (rpk, final(self).rpk) {
                (Some(a), Some(b)) => b@ == a@ && entries_view(final(self).content@) == a@.entries,
                (None, None) => final(self).content@ == old(self).content@,
                _ => false,
            },
    {
        self.query = String::new();
        match rpk {
            Some(p) => {
                self.content = search_results(&p.entries, &Vec::new());
                self.rpk = Some(p);
            },
            None => {
                self.rpk = None;
            },
        }
    }

    /// Searches the opened package's entry names for `query`: lists the
    /// entries that the fuzzy matcher finds, best first, or every entry when
    /// it finds none.
    pub fn search(&mut self, query: String)
        ensures
            final(self).query@ == query@,
            final(self).rpk == old(self).rpk,
            old(self).rpk is None ==> final(self).content == old(self).content,
            old(self).rpk matches Some(p) ==> exists|mt: nucleo::Nucleo<usize>|
                #[trigger] fed(mt, entry_names(p@.entries), query@),
            old(self).rpk matches Some(p) ==> exists|m: Seq<usize>|
                #![trigger is_match_of(m, entry_names(p@.entries), query@)]
                is_match_of(m, entry_names(p@.entries), query@) && is_full_match(
                    m,
                    entry_names(p@.entries),
                    query@,
                ) && entries_view(final(self).content@) == results_of(p@.entries, m),
    {
        self.query = query;
        match &self.rpk {
            Some(p) => {
                let names = names_of(&p.entries);
                let matched = fuzzy_matches(&names, self.query.as_str());
                proof {
                    assert(strings_view(names@).len() == names@.len());
                    assert(p@.entries == entries_view(p.entries@));
                    assert forall|k: int| 0 <= k < matched@.len() implies #[trigger] matched@[k]
                        < p.entries@.len() by {}
                }
                let found = search_results(&p.entries, &matched);
                self.content = found;
            },
            None => {},
        }
    }

    /// The bytes of the opened package's entry named `name`, to be saved.
    pub fn export(&self, name: &String) -> (r: Option<Vec<u8>>)
        requires
            self.rpk matches Some(p) ==> p@.data.len() == p@.entries.len(),
        ensures
            match self.rpk {
                Some(p) => match r {
                    Some(d) => block_of(
                        Layered { entries: sorted_by(SortKey::Offset, p@.entries), data: p@.data },
                        name@,
                    ) == Some(d@),
                    None => block_of(
                        Layered { entries: sorted_by(SortKey::Offset, p@.entries), data: p@.data },
                        name@,
                    ) is None,
                },
                None => r is None,
            },
    {
        match &self.rpk {
            Some(p) => block_named(p, name),
            None => None,
        }
    }
}

} // verus!
