//! The mods screen: the load order shown as rows, one per mod id, that the
//! user reorders by dragging a row onto another and enables by ticking it.

use vstd::prelude::*;

use crate::config::{load_order_view, move_item, Settings, SettingsV};

verus! {

/// The mods screen: the settings it edits, the row under a dragged row, and
/// the id of each row, in order.
pub struct Mods {
    pub config: Settings,
    pub hovered_mod: Option<String>,
    pub rows: Vec<String>,
}

/// The value of [`Mods`].
pub struct ModsV {
    pub config: SettingsV,
    pub hovered_mod: Option<Seq<char>>,
    pub rows: Seq<Seq<char>>,
}

/// The value of an optional string.
pub open spec fn opt_view(s: Option<String>) -> Option<Seq<char>> {
    match s {
        Some(v) => Some(v@),
        None => None,
    }
}

/// The values of strings.
pub open spec fn strings_view(v: Seq<String>) -> Seq<Seq<char>> {
    v.map_values(|s: String| s@)
}

impl View for Mods {
    type V = ModsV;

    open spec fn view(&self) -> ModsV {
        ModsV {
            config: self.config@,
            hovered_mod: opt_view(self.hovered_mod),
            rows: strings_view(self.rows@),
        }
    }
}

/// What the mods screen is told.
pub enum Message {
    /// The settings were read again.
    ConfigRefetched(Settings),
    /// A drag ended outside the rows.
    ModDragCanceled,
    /// The row at this index is being dragged.
    ModDragged(usize),
    /// The row at this index was dropped.
    ModDropped(usize),
    /// The mod at this index was enabled or disabled.
    ModToggled(usize, bool),
    /// The rows found under a dragged row, first the nearest.
    ModZonesFound(Vec<String>),
}

/// The value of a [`Message`].
pub enum MessageV {
    ConfigRefetched(SettingsV),
    ModDragCanceled,
    ModDragged(usize),
    ModDropped(usize),
    ModToggled(usize, bool),
    ModZonesFound(Seq<Seq<char>>),
}

impl View for Message {
    type V = MessageV;

    open spec fn view(&self) -> MessageV {
        match self {
            Message::ConfigRefetched(c) => MessageV::ConfigRefetched(c@),
            Message::ModDragCanceled => MessageV::ModDragCanceled,
            Message::ModDragged(i) => MessageV::ModDragged(*i),
            Message::ModDropped(i) => MessageV::ModDropped(*i),
            Message::ModToggled(i, e) => MessageV::ModToggled(*i, *e),
            Message::ModZonesFound(z) => MessageV::ModZonesFound(strings_view(z@)),
        }
    }
}

/// What the launcher is to do after a message.
pub enum Action {
    Nothing,
    /// Store these settings.
    ConfigChanged(Settings),
    /// Look for the rows, among these, under the dragged row.
    FindZones(Vec<String>),
}

/// The value of an [`Action`].
pub enum ActionV {
    Nothing,
    ConfigChanged(SettingsV),
    FindZones(Seq<Seq<char>>),
}

impl View for Action {
    type V = ActionV;

    open spec fn view(&self) -> ActionV {
        match self {
            Action::Nothing => ActionV::Nothing,
            Action::ConfigChanged(c) => ActionV::ConfigChanged(c@),
            Action::FindZones(z) => ActionV::FindZones(strings_view(z@)),
        }
    }
}

/// The ids of a load order, in order.
pub open spec fn ids_of(lo: Seq<(Seq<char>, bool)>) -> Seq<Seq<char>> {
    lo.map_values(|m: (Seq<char>, bool)| m.0)
}

/// The index of the first row of id `id`, if any.
pub open spec fn find_row(rows: Seq<Seq<char>>, id: Seq<char>) -> Option<int>
    decreases rows.len(),
{
    if rows.len() == 0 {
        None
    } else {
        match find_row(rows.drop_last(), id) {
            Some(i) => Some(i),
            None => if rows.last() == id {
                Some(rows.len() - 1)
            } else {
                None
            },
        }
    }
}

/// The row that a dropped row lands on: the first of the hovered id.
pub open spec fn drop_target(s: ModsV) -> Option<int> {
    match s.hovered_mod {
        Some(id) => find_row(s.rows, id),
        None => None,
    }
}

/// `s` with its item at `from` taken out and put back in at `to`.
pub open spec fn moved<T>(s: Seq<T>, from: int, to: int) -> Seq<T> {
    s.remove(from).insert(to, s[from])
}

/// The messages that the screen handles: a dropped row and the row it lands
/// on exist in both the rows and the load order; a toggled mod exists.
pub open spec fn handles(s: ModsV, m: MessageV) -> bool {
    match m {
        MessageV::ModDropped(from) => drop_target(s) matches Some(to) ==> {
            &&& from < s.rows.len()
            &&& from < s.config.load_order.len()
            &&& to < s.config.load_order.len()
        },
        MessageV::ModToggled(i, _) => i < s.config.load_order.len(),
        _ => true,
    }
}

/// The screen after message `m`, and what the launcher is to do.
pub open spec fn mods_step(s: ModsV, m: MessageV) -> (ModsV, ActionV) {
    match m {
        MessageV::ConfigRefetched(c) => if c.exanima_exe is Some {
            (ModsV { config: c, rows: ids_of(c.load_order), ..s }, ActionV::Nothing)
        } else {
            (ModsV { config: c, ..s }, ActionV::Nothing)
        },
        MessageV::ModDragCanceled => (ModsV { hovered_mod: None, ..s }, ActionV::Nothing),
        MessageV::ModDragged(_) => (s, ActionV::FindZones(s.rows)),
        MessageV::ModDropped(from) => match drop_target(s) {
            Some(to) => {
                let c = SettingsV {
                    load_order: moved(s.config.load_order, from as int, to),
                    ..s.config
                };
                (
                    ModsV { config: c, hovered_mod: None, rows: moved(s.rows, from as int, to) },
                    ActionV::ConfigChanged(c),
                )
            },
            None => (s, ActionV::Nothing),
        },
        MessageV::ModToggled(i, enabled) => {
            let lo = s.config.load_order;
            let c = SettingsV { load_order: lo.update(i as int, (lo[i as int].0, enabled)), ..s.config };
            (ModsV { config: c, ..s }, ActionV::ConfigChanged(c))
        },
        MessageV::ModZonesFound(z) => if z.len() > 0 {
            (ModsV { hovered_mod: Some(z[0]), ..s }, ActionV::Nothing)
        } else {
            (s, ActionV::Nothing)
        },
    }
}

/// Copies strings.
fn copy_strings(v: &Vec<String>) -> (r: Vec<String>)
    ensures
        strings_view(r@) == strings_view(v@),
{
    let mut out: Vec<String> = Vec::new();
    let mut i: usize = 0;
    while i < v.len()
        invariant
            i <= v@.len(),
            strings_view(out@) == strings_view(v@).take(i as int),
        decreases v.len() - i,
    {
        let ghost before = strings_view(out@);
        out.push(v[i].clone());
        assert(strings_view(out@) =~= before.push(strings_view(v@)[i as int]));
        i = i + 1;
    }
    assert(strings_view(v@).take(i as int) =~= strings_view(v@));
    out
}

/// The ids of a load order, in order.
fn row_ids(lo: &Vec<(String, bool)>) -> (r: Vec<String>)
    ensures
        strings_view(r@) == ids_of(load_order_view(lo@)),
{
    let mut out: Vec<String> = Vec::new();
    let mut i: usize = 0;
    while i < lo.len()
        invariant
            i <= lo@.len(),
            strings_view(out@) == ids_of(load_order_view(lo@)).take(i as int),
        decreases lo.len() - i,
    {
        let ghost before = strings_view(out@);
        out.push(lo[i].0.clone());
        assert(strings_view(out@) =~= before.push(ids_of(load_order_view(lo@))[i as int]));
        i = i + 1;
    }
    assert(ids_of(load_order_view(lo@)).take(i as int) =~= ids_of(load_order_view(lo@)));
    out
}

proof fn lemma_find_row_prefix(rows: Seq<Seq<char>>, id: Seq<char>, i: int)
    requires
        0 <= i < rows.len(),
        find_row(rows.take(i), id) is None,
    ensures
        find_row(rows.take(i + 1), id) == if rows[i] == id {
            Some(i)
        } else {
            None::<int>
        },
{
    assert(rows.take(i + 1).drop_last() =~= rows.take(i));
}

proof fn lemma_find_row_extends(rows: Seq<Seq<char>>, id: Seq<char>, i: int, j: int)
    requires
        0 <= i <= j <= rows.len(),
        find_row(rows.take(i), id) is Some,
    ensures
        find_row(rows.take(j), id) == find_row(rows.take(i), id),
    decreases j - i,
{
    if j > i {
        lemma_find_row_extends(rows, id, i, j - 1);
        assert(rows.take(j).drop_last() =~= rows.take(j - 1));
    }
}

proof fn lemma_find_row_in_range(rows: Seq<Seq<char>>, id: Seq<char>)
    ensures
        find_row(rows, id) matches Some(i) ==> 0 <= i < rows.len() && rows[i] == id,
    decreases rows.len(),
{
    if rows.len() > 0 {
        lemma_find_row_in_range(rows.drop_last(), id);
    }
}

/// The index of the first row of id `id`, if any.
fn position_of(rows: &Vec<String>, id: &String) -> (r: Option<usize>)
    ensures
        r matches Some(i) ==> find_row(strings_view(rows@), id@) == Some(i as int),
        r is None ==> find_row(strings_view(rows@), id@) is None,
{
    let ghost v = strings_view(rows@);
    let mut i: usize = 0;
    assert(v.take(0) =~= Seq::<Seq<char>>::empty());
    while i < rows.len()
        invariant
            i <= rows@.len(),
            v == strings_view(rows@),
            find_row(v.take(i as int), id@) is None,
        decreases rows.len() - i,
    {
        proof {
            lemma_find_row_prefix(v, id@, i as int);
        }
        if rows[i] == *id {
            proof {
                lemma_find_row_extends(v, id@, i + 1, v.len() as int);
                assert(v.take(v.len() as int) =~= v);
            }
            return Some(i);
        }
        i = i + 1;
    }
    assert(v.take(i as int) =~= v);
    None
}

/// Dropping a row onto another moves the dragged mod to the place of the one
/// it lands on; the load order holds the same mods as before.
pub proof fn lemma_drop_keeps_mods(s: ModsV, from: usize)
    requires
        handles(s, MessageV::ModDropped(from)),
        drop_target(s) is Some,
    ensures
        ({
            let (t, _) = mods_step(s, MessageV::ModDropped(from));
            let to = drop_target(s).unwrap();
            &&& t.config.load_order.to_multiset() == s.config.load_order.to_multiset()
            &&& t.config.load_order[to] == s.config.load_order[from as int]
            &&& t.config.load_order.len() == s.config.load_order.len()
            &&& t.hovered_mod is None
        }),
{
    let lo = s.config.load_order;
    let to = drop_target(s).unwrap();
    lemma_find_row_in_range(s.rows, s.hovered_mod.unwrap());
    let x = lo[from as int];
    broadcast use vstd::multiset::group_multiset_axioms;
    vstd::seq_lib::to_multiset_remove(lo, from as int);
    vstd::seq_lib::to_multiset_insert(lo.remove(from as int), to, x);
    assert(lo.to_multiset().count(x) > 0) by {
        vstd::seq_lib::to_multiset_contains(lo, x);
        assert(lo.contains(x)) by {
            assert(lo[from as int] == x);
        }
    }
    assert(lo.to_multiset().remove(x).insert(x) =~= lo.to_multiset());
}

/// Ticking or unticking the mod at `i` sets that row's flag to the choice and
/// keeps its id; every other row, the rows shown and the rest of the settings
/// stay; the settings so changed are handed on to be stored.
pub proof fn lemma_toggle_sets_flag(s: ModsV, i: usize, enabled: bool)
    requires
        i < s.config.load_order.len(),
    ensures
        ({
            let (t, a) = mods_step(s, MessageV::ModToggled(i, enabled));
            let lo = t.config.load_order;
            &&& lo.len() == s.config.load_order.len()
            &&& lo[i as int].1 == enabled
            &&& lo[i as int].0 == s.config.load_order[i as int].0
            &&& forall|j: int| 0 <= j < lo.len() && j != i ==> #[trigger] lo[j] == s.config.load_order[j]
            &&& t.rows == s.rows
            &&& t.hovered_mod == s.hovered_mod
            &&& t.config.exanima_exe == s.config.exanima_exe
            &&& t.config.launcher == s.config.launcher
            &&& a == ActionV::ConfigChanged(t.config)
        }),
{
}

/// While the game's executable is known, the rows are the ids of the load
/// order, in order, after every message that the screen handles.
pub proof fn lemma_rows_follow_load_order(s: ModsV, m: MessageV)
    requires
        handles(s, m),
        s.rows == ids_of(s.config.load_order),
        m matches MessageV::ConfigRefetched(c) ==> c.exanima_exe is Some,
    ensures
        mods_step(s, m).0.rows == ids_of(mods_step(s, m).0.config.load_order),
{
    match m {
        MessageV::ModDropped(from) => {
            match drop_target(s) {
                Some(to) => {
                    lemma_find_row_in_range(s.rows, s.hovered_mod.unwrap());
                    let lo = s.config.load_order;
                    assert(ids_of(moved(lo, from as int, to)) =~= moved(ids_of(lo), from as int, to));
                },
                None => {},
            }
        },
        MessageV::ModToggled(i, enabled) => {
            let lo = s.config.load_order;
            assert(ids_of(lo.update(i as int, (lo[i as int].0, enabled))) =~= ids_of(lo));
        },
        _ => {},
    }
}

impl Mods {
    /// The mods screen for `config`: one row for each mod of its load order
    /// when the game's executable is known, none otherwise.
    pub fn new(config: Settings) -> (r: Self)
        ensures
            r@.config == config@,
            r@.hovered_mod is None,
            r@.rows == if config@.exanima_exe is Some {
                ids_of(config@.load_order)
            } else {
                Seq::empty()
            },
    {
        let rows = if config.exanima_exe.is_some() {
            row_ids(&config.load_order)
        } else {
            Vec::new()
        };
        proof {
            if config.exanima_exe.is_none() {
                assert(strings_view(rows@) =~= Seq::<Seq<char>>::empty());
            }
        }
        Mods { config, hovered_mod: None, rows }
    }

    /// Handles `message`: updates the screen and says what the launcher is to do.
    pub fn update(&mut self, message: Message) -> (r: Action)
        requires
            handles(old(self)@, message@),
        ensures
            (final(self)@, r@) == mods_step(old(self)@, message@),
    {
        match message {
            Message::ConfigRefetched(config) => {
                if config.exanima_exe.is_some() {
                    self.rows = row_ids(&config.load_order);
                }
                self.config = config;
                Action::Nothing
            },
            Message::ModDragCanceled => {
                self.hovered_mod = None;
                Action::Nothing
            },
            Message::ModDragged(_) => Action::FindZones(copy_strings(&self.rows)),
            Message::ModDropped(from) => {
                let target = match &self.hovered_mod {
                    Some(id) => position_of(&self.rows, id),
                    None => None,
                };
                match target {
                    Some(to) => {
                        proof {
                            lemma_find_row_in_range(self@.rows, self@.hovered_mod.unwrap());
                        }
                        let ghost rows0 = self.rows@;
                        let ghost lo0 = self.config.load_order@;
                        move_item(&mut self.rows, from, to);
                        move_item(&mut self.config.load_order, from, to);
                        self.hovered_mod = None;
                        assert(strings_view(self.rows@) =~= moved(
                            strings_view(rows0),
                            from as int,
                            to as int,
                        ));
                        assert(load_order_view(self.config.load_order@) =~= moved(
                            load_order_view(lo0),
                            from as int,
                            to as int,
                        ));
                        Action::ConfigChanged(self.config.clone())
                    },
                    None => Action::Nothing,
                }
            },
            Message::ModToggled(index, enabled) => {
                self.config.set_enabled(index, enabled);
                Action::ConfigChanged(self.config.clone())
            },
            Message::ModZonesFound(zones) => {
                if zones.len() > 0 {
                    self.hovered_mod = Some(zones[0].clone());
                }
                Action::Nothing
            },
        }
    }
}

// ---------------------------------------------------------------------------
// What a row of the mods list shows
// ---------------------------------------------------------------------------

/// The name shown for a mod: the name in its plugin configuration, else its
/// id. A mod without a configuration is dimmed.
pub fn mod_label(id: &str, config_name: Option<&str>) -> (r: String)
    ensures
        r@ == match config_name {
            Some(n) => n@,
            None => id@,
        },
{
    match config_name {
        Some(n) => crate::text::owned(n),
        None => crate::text::owned(id),
    }
}

/// The version shown for a mod: the version in its plugin configuration,
/// else `?`.
pub fn mod_version_label(config_version: Option<&str>) -> (r: String)
    ensures
        r@ == match config_version {
            Some(v) => v@,
            None => "?"@,
        },
{
    match config_version {
        Some(v) => crate::text::owned(v),
        None => crate::text::owned("?"),
    }
}

/// How a row of the mods list is shaded.
#[derive(Debug, Clone, Copy, PartialEq, Eq, Structural)]
pub enum Shade {
    /// The row that a dragged row is over.
    Hovered,
    /// Every other row, from the first.
    Striped,
    Plain,
}

impl Mods {
    /// How the row at `index` is shaded: hovered when a dragged row is over
    /// it, else striped when its index is even.
    pub fn shade(&self, index: usize) -> (r: Shade)
        requires
            index < self@.rows.len(),
        ensures
            r == if self@.hovered_mod == Some(self@.rows[index as int]) {
                Shade::Hovered
            } else if index % 2 == 0 {
                Shade::Striped
            } else {
                Shade::Plain
            },
    {
        let hovered = match &self.hovered_mod {
            Some(id) => *id == self.rows[index],
            None => false,
        };
        if hovered {
            Shade::Hovered
        } else if index % 2 == 0 {
            Shade::Striped
        } else {
            Shade::Plain
        }
    }
}

} // verus!
