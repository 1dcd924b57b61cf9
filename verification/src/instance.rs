//! The plugin table of a game instance: the profile's load order shown as
//! rows arranged by priority, which the user reorders by dragging a row onto
//! another and enables by ticking; and the form that names a new profile.

use vstd::prelude::*;

use crate::mods::opt_view;
use crate::priority::moved_priority;
use crate::ui::State;

verus! {

/// A plugin of a profile's load order.
pub struct Plugin {
    pub enabled: bool,
    pub priority: u32,
    pub display_name: Option<String>,
    pub version: Option<String>,
}

/// The value of a [`Plugin`].
pub struct PluginV {
    pub enabled: bool,
    pub priority: u32,
    pub display_name: Option<Seq<char>>,
    pub version: Option<Seq<char>>,
}

impl View for Plugin {
    type V = PluginV;

    open spec fn view(&self) -> PluginV {
        PluginV {
            enabled: self.enabled,
            priority: self.priority,
            display_name: opt_view(self.display_name),
            version: opt_view(self.version),
        }
    }
}

/// Copies an optional string.
fn copy_opt(s: &Option<String>) -> (r: Option<String>)
    ensures
        opt_view(r) == opt_view(*s),
{
    match s {
        Some(v) => Some(v.clone()),
        None => None,
    }
}

impl Clone for Plugin {
    fn clone(&self) -> (r: Self)
        ensures
            r@ == self@,
    {
        Plugin {
            enabled: self.enabled,
            priority: self.priority,
            display_name: copy_opt(&self.display_name),
            version: copy_opt(&self.version),
        }
    }
}

/// The value of a load order: each plugin's id with the plugin.
pub open spec fn plugins_view(v: Seq<(String, Plugin)>) -> Seq<(Seq<char>, PluginV)> {
    v.map_values(|p: (String, Plugin)| (p.0@, p.1@))
}

/// Copies a load-order row.
fn copy_plugin_row(p: &(String, Plugin)) -> (r: (String, Plugin))
    ensures
        (r.0@, r.1@) == (p.0@, p.1@),
{
    (p.0.clone(), p.1.clone())
}

/// Copies a load order.
fn copy_plugins(v: &Vec<(String, Plugin)>) -> (r: Vec<(String, Plugin)>)
    ensures
        plugins_view(r@) == plugins_view(v@),
{
    let mut out: Vec<(String, Plugin)> = Vec::new();
    let mut i: usize = 0;
    while i < v.len()
        invariant
            i <= v@.len(),
            plugins_view(out@) == plugins_view(v@).take(i as int),
        decreases v.len() - i,
    {
        let ghost before = plugins_view(out@);
        out.push(copy_plugin_row(&v[i]));
        assert(plugins_view(out@) =~= before.push(plugins_view(v@)[i as int]));
        i = i + 1;
    }
    assert(plugins_view(v@).take(i as int) =~= plugins_view(v@));
    out
}

// ---------------------------------------------------------------------------
// Arranging a load order by priority
// ---------------------------------------------------------------------------

/// Where `x` goes in the arranged `t`: after every plugin whose priority is not
/// greater than its own.
pub open spec fn priority_pos(t: Seq<(Seq<char>, PluginV)>, x: (Seq<char>, PluginV)) -> int
    decreases t.len(),
{
    if t.len() == 0 {
        0
    } else if x.1.priority < t.last().1.priority {
        priority_pos(t.drop_last(), x)
    } else {
        t.len() as int
    }
}

/// The load order `s` stably arranged by priority: each plugin in turn is
/// placed after every earlier one whose priority is not greater.
pub open spec fn by_priority(s: Seq<(Seq<char>, PluginV)>) -> Seq<(Seq<char>, PluginV)>
    decreases s.len(),
{
    if s.len() == 0 {
        s
    } else {
        let t = by_priority(s.drop_last());
        t.insert(priority_pos(t, s.last()), s.last())
    }
}

/// Priorities never decrease along `s`.
pub open spec fn is_by_priority(s: Seq<(Seq<char>, PluginV)>) -> bool {
    forall|i: int, j: int|
        0 <= i < j < s.len() ==> (#[trigger] s[i]).1.priority <= (#[trigger] s[j]).1.priority
}

proof fn lemma_priority_pos(t: Seq<(Seq<char>, PluginV)>, x: (Seq<char>, PluginV))
    ensures
        0 <= priority_pos(t, x) <= t.len(),
        forall|j: int|
            priority_pos(t, x) <= j < t.len() ==> x.1.priority < (#[trigger] t[j]).1.priority,
        priority_pos(t, x) > 0 ==> t[priority_pos(t, x) - 1].1.priority <= x.1.priority,
    decreases t.len(),
{
    if t.len() > 0 && x.1.priority < t.last().1.priority {
        lemma_priority_pos(t.drop_last(), x);
        let p = priority_pos(t, x);
        assert forall|j: int| p <= j < t.len() implies x.1.priority < (
        #[trigger] t[j]).1.priority by {
            if j < t.len() - 1 {
                assert(t[j] == t.drop_last()[j]);
            }
        }
        if p > 0 {
            assert(t[p - 1] == t.drop_last()[p - 1]);
        }
    }
}

/// The arrangement by priority is in order of priority.
pub proof fn lemma_by_priority_sorted(s: Seq<(Seq<char>, PluginV)>)
    ensures
        is_by_priority(by_priority(s)),
    decreases s.len(),
{
    if s.len() > 0 {
        lemma_by_priority_sorted(s.drop_last());
        let t = by_priority(s.drop_last());
        let x = s.last();
        lemma_priority_pos(t, x);
        let p = priority_pos(t, x);
        let u = t.insert(p, x);
        assert forall|i: int, j: int| 0 <= i < j < u.len() implies (#[trigger] u[i]).1.priority
            <= (#[trigger] u[j]).1.priority by {
            if i < p && j < p {
                assert(u[i] == t[i] && u[j] == t[j]);
            } else if i < p && j == p {
                assert(u[i] == t[i]);
                if i < p - 1 {
                    assert(t[i].1.priority <= t[p - 1].1.priority);
                }
            } else if i < p {
                assert(u[i] == t[i] && u[j] == t[j - 1]);
            } else if i == p {
                assert(u[j] == t[j - 1]);
            } else {
                assert(u[i] == t[i - 1] && u[j] == t[j - 1]);
            }
        }
    }
}

/// The arrangement by priority holds the same plugins, as often, as the load order.
pub proof fn lemma_by_priority_permutes(s: Seq<(Seq<char>, PluginV)>)
    ensures
        by_priority(s).to_multiset() == s.to_multiset(),
        by_priority(s).len() == s.len(),
    decreases s.len(),
{
    broadcast use vstd::seq_lib::group_to_multiset_ensures;

    if s.len() > 0 {
        let t = by_priority(s.drop_last());
        lemma_by_priority_permutes(s.drop_last());
        lemma_priority_pos(t, s.last());
        vstd::seq_lib::to_multiset_insert(t, priority_pos(t, s.last()), s.last());
        assert(s =~= s.drop_last().push(s.last()));
    }
}

/// The load order `v` stably arranged by priority.
fn sort_by_priority(v: &Vec<(String, Plugin)>) -> (r: Vec<(String, Plugin)>)
    ensures
        plugins_view(r@) == by_priority(plugins_view(v@)),
{
    let mut out: Vec<(String, Plugin)> = Vec::new();
    let mut i: usize = 0;
    while i < v.len()
        invariant
            i <= v.len(),
            plugins_view(out@) == by_priority(plugins_view(v@.take(i as int))),
        decreases v.len() - i,
    {
        let x = copy_plugin_row(&v[i]);
        let ghost xv = (x.0@, x.1@);
        let ghost t = plugins_view(out@);
        let mut p: usize = out.len();
        assert(t.take(p as int) =~= t);
        while p > 0 && x.1.priority < out[p - 1].1.priority
            invariant
                p <= out.len(),
                t == plugins_view(out@),
                xv == (x.0@, x.1@),
                priority_pos(t, xv) == priority_pos(t.take(p as int), xv),
            decreases p,
        {
            assert(t.take(p as int).drop_last() =~= t.take(p - 1));
            assert(t.take(p as int).last() == t[p - 1]);
            p = p - 1;
        }
        proof {
            if p > 0 {
                assert(t.take(p as int).last() == t[p - 1]);
            }
        }
        out.insert(p, x);
        proof {
            let vi = plugins_view(v@.take(i + 1));
            assert(vi.drop_last() =~= plugins_view(v@.take(i as int)));
            assert(vi.last() == (v@[i as int].0@, v@[i as int].1@));
            assert(plugins_view(out@) =~= t.insert(p as int, xv));
        }
        i = i + 1;
    }
    assert(v@.take(v.len() as int) =~= v@);
    out
}

// ---------------------------------------------------------------------------
// The table
// ---------------------------------------------------------------------------

/// A row of the table: its widget's id, the plugin's id and the plugin.
pub struct Row {
    pub widget_id: u64,
    pub plugin_id: String,
    pub plugin: Plugin,
}

/// The value of a [`Row`].
pub struct RowV {
    pub widget_id: u64,
    pub plugin_id: Seq<char>,
    pub plugin: PluginV,
}

impl View for Row {
    type V = RowV;

    open spec fn view(&self) -> RowV {
        RowV { widget_id: self.widget_id, plugin_id: self.plugin_id@, plugin: self.plugin@ }
    }
}

/// The values of rows.
pub open spec fn rows_view(v: Seq<Row>) -> Seq<RowV> {
    v.map_values(|r: Row| r@)
}

/// The table: the row clicked last, the row under a dragged row, the rows,
/// and the id that the next new row's widget gets.
pub struct Table {
    pub focus_row: Option<usize>,
    pub over: Option<u64>,
    pub rows: Vec<Row>,
    pub next_id: u64,
}

/// The value of a [`Table`].
pub struct TableV {
    pub focus_row: Option<usize>,
    pub over: Option<u64>,
    pub rows: Seq<RowV>,
    pub next_id: u64,
}

impl View for Table {
    type V = TableV;

    open spec fn view(&self) -> TableV {
        TableV {
            focus_row: self.focus_row,
            over: self.over,
            rows: rows_view(self.rows@),
            next_id: self.next_id,
        }
    }
}

/// The rows shown for the arranged load order `sorted`, whose widgets get the
/// ids from `first` on.
pub open spec fn rows_of(sorted: Seq<(Seq<char>, PluginV)>, first: u64) -> Seq<RowV> {
    Seq::new(
        sorted.len(),
        |k: int| RowV { widget_id: (first + k) as u64, plugin_id: sorted[k].0, plugin: sorted[k].1 },
    )
}

impl Table {
    /// An empty table whose first row's widget gets the id `first_id`.
    pub fn new(first_id: u64) -> (r: Self)
        ensures
            r@ == (TableV { focus_row: None, over: None, rows: Seq::empty(), next_id: first_id }),
    {
        let r = Table { focus_row: None, over: None, rows: Vec::new(), next_id: first_id };
        assert(rows_view(r.rows@) =~= Seq::<RowV>::empty());
        r
    }

    /// Fills the rows with `load_order`, arranged by priority; each row's
    /// widget gets a new id.
    pub fn refresh(&mut self, load_order: &Vec<(String, Plugin)>)
        requires
            old(self).next_id + load_order@.len() <= u64::MAX,
        ensures
            final(self)@ == (TableV {
                rows: rows_of(by_priority(plugins_view(load_order@)), old(self).next_id),
                next_id: (old(self).next_id + load_order@.len()) as u64,
                ..old(self)@
            }),
    {
        let sorted = sort_by_priority(load_order);
        proof {
            lemma_by_priority_permutes(plugins_view(load_order@));
        }
        let ghost sv = plugins_view(sorted@);
        let ghost first = self.next_id;
        let mut rows: Vec<Row> = Vec::new();
        let mut k: usize = 0;
        while k < sorted.len()
            invariant
                k <= sorted@.len(),
                sv == plugins_view(sorted@),
                sorted@.len() == load_order@.len(),
                first + load_order@.len() <= u64::MAX,
                self.next_id == first + k,
                self.focus_row == old(self).focus_row,
                self.over == old(self).over,
                first == old(self).next_id,
                rows_view(rows@) == rows_of(sv, first).take(k as int),
            decreases sorted.len() - k,
        {
            let row = copy_plugin_row(&sorted[k]);
            let ghost before = rows_view(rows@);
            rows.push(Row { widget_id: self.next_id, plugin_id: row.0, plugin: row.1 });
            assert(rows_view(rows@) =~= before.push(rows_of(sv, first)[k as int]));
            self.next_id = self.next_id + 1;
            k = k + 1;
        }
        assert(rows_of(sv, first).take(k as int) =~= rows_of(sv, first));
        self.rows = rows;
    }
}

// ---------------------------------------------------------------------------
// The instance and its messages
// ---------------------------------------------------------------------------

/// A game instance as its buffer shows it: the profile's load order, the
/// profile form's input, whether the form is shown, and the table.
pub struct Instance {
    pub load_order: Vec<(String, Plugin)>,
    pub profile_form_input: String,
    pub state: State,
    pub table: Table,
}

/// The value of an [`Instance`].
pub struct InstanceV {
    pub load_order: Seq<(Seq<char>, PluginV)>,
    pub profile_form_input: Seq<char>,
    pub state: State,
    pub table: TableV,
}

impl View for Instance {
    type V = InstanceV;

    open spec fn view(&self) -> InstanceV {
        InstanceV {
            load_order: plugins_view(self.load_order@),
            profile_form_input: self.profile_form_input@,
            state: self.state,
            table: self.table@,
        }
    }
}

/// What a search for the rows under a dragged row is for.
#[derive(Debug, Clone, Copy, PartialEq, Eq, Structural)]
pub enum ZoneUse {
    /// Marking the row under the dragged one.
    Over,
    /// Moving the dragged row there.
    Reorder,
}

/// What the instance buffer is told.
pub enum Message {
    ClickedRow(usize),
    DraggedRow,
    DraggedRowCanceled,
    DroppedRow,
    EntryToggled(usize, bool),
    Launch,
    Loaded,
    Loading,
    NewPlugin,
    OverRow(Vec<u64>),
    ProfileDeleted,
    ProfileFormInputChanged(String),
    ProfileFormSubmitted,
    ProfileSelected(String),
    ReorderRows(Vec<u64>),
    SettingsPressed,
    StateChanged(State),
}

/// The value of a [`Message`].
pub enum MessageV {
    ClickedRow(usize),
    DraggedRow,
    DraggedRowCanceled,
    DroppedRow,
    EntryToggled(usize, bool),
    Launch,
    Loaded,
    Loading,
    NewPlugin,
    OverRow(Seq<u64>),
    ProfileDeleted,
    ProfileFormInputChanged(Seq<char>),
    ProfileFormSubmitted,
    ProfileSelected(Seq<char>),
    ReorderRows(Seq<u64>),
    SettingsPressed,
    StateChanged(State),
}

impl View for Message {
    type V = MessageV;

    open spec fn view(&self) -> MessageV {
        match self {
            Message::ClickedRow(i) => MessageV::ClickedRow(*i),
            Message::DraggedRow => MessageV::DraggedRow,
            Message::DraggedRowCanceled => MessageV::DraggedRowCanceled,
            Message::DroppedRow => MessageV::DroppedRow,
            Message::EntryToggled(i, e) => MessageV::EntryToggled(*i, *e),
            Message::Launch => MessageV::Launch,
            Message::Loaded => MessageV::Loaded,
            Message::Loading => MessageV::Loading,
            Message::NewPlugin => MessageV::NewPlugin,
            Message::OverRow(z) => MessageV::OverRow(z@),
            Message::ProfileDeleted => MessageV::ProfileDeleted,
            Message::ProfileFormInputChanged(s) => MessageV::ProfileFormInputChanged(s@),
            Message::ProfileFormSubmitted => MessageV::ProfileFormSubmitted,
            Message::ProfileSelected(s) => MessageV::ProfileSelected(s@),
            Message::ReorderRows(z) => MessageV::ReorderRows(z@),
            Message::SettingsPressed => MessageV::SettingsPressed,
            Message::StateChanged(s) => MessageV::StateChanged(*s),
        }
    }
}

/// What the launcher is to do after a message.
pub enum Action {
    Nothing,
    Loaded,
    Loading,
    /// Look for the rows, among these, under the dragged row.
    FindZones(Vec<u64>, ZoneUse),
    /// Store this load order in the profile, then show it.
    SaveLoadOrder(Vec<(String, Plugin)>),
    /// Start the game with the profile.
    Launch,
    /// Delete the profile, then select the default one.
    DeleteProfile,
    /// Create a profile of this name and select it.
    CreateProfile(String),
    /// Select the profile of this name.
    SelectProfile(String),
}

/// The value of an [`Action`].
pub enum ActionV {
    Nothing,
    Loaded,
    Loading,
    FindZones(Seq<u64>, ZoneUse),
    SaveLoadOrder(Seq<(Seq<char>, PluginV)>),
    Launch,
    DeleteProfile,
    CreateProfile(Seq<char>),
    SelectProfile(Seq<char>),
}

impl View for Action {
    type V = ActionV;

    open spec fn view(&self) -> ActionV {
        match self {
            Action::Nothing => ActionV::Nothing,
            Action::Loaded => ActionV::Loaded,
            Action::Loading => ActionV::Loading,
            Action::FindZones(z, u) => ActionV::FindZones(z@, *u),
            Action::SaveLoadOrder(lo) => ActionV::SaveLoadOrder(plugins_view(lo@)),
            Action::Launch => ActionV::Launch,
            Action::DeleteProfile => ActionV::DeleteProfile,
            Action::CreateProfile(s) => ActionV::CreateProfile(s@),
            Action::SelectProfile(s) => ActionV::SelectProfile(s@),
        }
    }
}

/// The index of the first plugin of id `id`, if any.
pub open spec fn find_plugin(lo: Seq<(Seq<char>, PluginV)>, id: Seq<char>) -> Option<int>
    decreases lo.len(),
{
    if lo.len() == 0 {
        None
    } else {
        match find_plugin(lo.drop_last(), id) {
            Some(i) => Some(i),
            None => if lo.last().0 == id {
                Some(lo.len() - 1)
            } else {
                None
            },
        }
    }
}

/// The index of the first row whose widget has the id `id`, if any.
pub open spec fn find_widget(rows: Seq<RowV>, id: u64) -> Option<int>
    decreases rows.len(),
{
    if rows.len() == 0 {
        None
    } else {
        match find_widget(rows.drop_last(), id) {
            Some(i) => Some(i),
            None => if rows.last().widget_id == id {
                Some(rows.len() - 1)
            } else {
                None
            },
        }
    }
}

/// The widget ids of the rows, in order, but those equal to `id`.
pub open spec fn ids_except(rows: Seq<RowV>, id: u64) -> Seq<u64>
    decreases rows.len(),
{
    if rows.len() == 0 {
        Seq::empty()
    } else {
        let r = ids_except(rows.drop_last(), id);
        if rows.last().widget_id != id {
            r.push(rows.last().widget_id)
        } else {
            r
        }
    }
}

/// `p` enabled or disabled.
pub open spec fn with_enabled(p: PluginV, enabled: bool) -> PluginV {
    PluginV { enabled, ..p }
}

/// The load order after the plugin of priority `from` is moved to priority `to`.
pub open spec fn reprioritized(lo: Seq<(Seq<char>, PluginV)>, from: u32, to: u32) -> Seq<
    (Seq<char>, PluginV),
> {
    Seq::new(
        lo.len(),
        |k: int| (lo[k].0, PluginV { priority: moved_priority(lo[k].1.priority, from, to), ..lo[k].1 }),
    )
}

/// The focused row, when it is one of the rows.
pub open spec fn focused(t: TableV) -> Option<int> {
    match t.focus_row {
        Some(f) => if f < t.rows.len() {
            Some(f as int)
        } else {
            None
        },
        None => None,
    }
}

/// The instance after message `m`, and what the launcher is to do.
pub open spec fn instance_step(s: InstanceV, m: MessageV) -> (InstanceV, ActionV) {
    let t = s.table;
    match m {
        MessageV::ClickedRow(i) => (
            InstanceV { table: TableV { focus_row: Some(i), ..t }, ..s },
            ActionV::Nothing,
        ),
        MessageV::DraggedRow => match focused(t) {
            Some(f) => (s, ActionV::FindZones(ids_except(t.rows, t.rows[f].widget_id), ZoneUse::Over)),
            None => (s, ActionV::Nothing),
        },
        MessageV::DraggedRowCanceled => (
            InstanceV { table: TableV { over: None, ..t }, ..s },
            ActionV::Nothing,
        ),
        MessageV::DroppedRow => {
            let s2 = InstanceV { table: TableV { over: None, ..t }, ..s };
            match focused(t) {
                Some(f) => (
                    s2,
                    ActionV::FindZones(ids_except(t.rows, t.rows[f].widget_id), ZoneUse::Reorder),
                ),
                None => (s2, ActionV::Nothing),
            }
        },
        MessageV::EntryToggled(i, enabled) => if i < t.rows.len() && find_plugin(
            s.load_order,
            t.rows[i as int].plugin_id,
        ) is Some {
            let k = find_plugin(s.load_order, t.rows[i as int].plugin_id).unwrap();
            let row = t.rows[i as int];
            let rows = t.rows.update(
                i as int,
                RowV { plugin: with_enabled(row.plugin, enabled), ..row },
            );
            (
                InstanceV { table: TableV { rows, ..t }, ..s },
                ActionV::SaveLoadOrder(
                    s.load_order.update(
                        k,
                        (s.load_order[k].0, with_enabled(s.load_order[k].1, enabled)),
                    ),
                ),
            )
        } else {
            (s, ActionV::Nothing)
        },
        MessageV::Launch => (s, ActionV::Launch),
        MessageV::Loaded => (s, ActionV::Loaded),
        MessageV::Loading => (s, ActionV::Loading),
        MessageV::NewPlugin => (s, ActionV::Nothing),
        MessageV::OverRow(z) => if z.len() > 0 {
            (InstanceV { table: TableV { over: Some(z[0]), ..t }, ..s }, ActionV::Nothing)
        } else {
            (s, ActionV::Nothing)
        },
        MessageV::ProfileDeleted => (s, ActionV::DeleteProfile),
        MessageV::ProfileFormInputChanged(input) => (
            InstanceV { profile_form_input: input, ..s },
            ActionV::Nothing,
        ),
        MessageV::ProfileFormSubmitted => (s, ActionV::CreateProfile(s.profile_form_input)),
        MessageV::ProfileSelected(name) => (s, ActionV::SelectProfile(name)),
        MessageV::ReorderRows(z) => if z.len() > 0 && t.focus_row is Some && find_widget(
            t.rows,
            z[0],
        ) is Some {
            let from = t.focus_row.unwrap();
            let to = find_widget(t.rows, z[0]).unwrap();
            (s, ActionV::SaveLoadOrder(reprioritized(s.load_order, from as u32, to as u32)))
        } else {
            (s, ActionV::Nothing)
        },
        MessageV::SettingsPressed => (s, ActionV::Nothing),
        MessageV::StateChanged(state) => (
            InstanceV {
                profile_form_input: if s.state == State::ProfileForm {
                    Seq::empty()
                } else {
                    s.profile_form_input
                },
                state,
                ..s
            },
            ActionV::Nothing,
        ),
    }
}

// ---------------------------------------------------------------------------
// Searching the load order and the rows
// ---------------------------------------------------------------------------

proof fn lemma_find_plugin_prefix(lo: Seq<(Seq<char>, PluginV)>, id: Seq<char>, i: int)
    requires
        0 <= i < lo.len(),
        find_plugin(lo.take(i), id) is None,
    ensures
        find_plugin(lo.take(i + 1), id) == if lo[i].0 == id {
            Some(i)
        } else {
            None::<int>
        },
{
    assert(lo.take(i + 1).drop_last() =~= lo.take(i));
}

proof fn lemma_find_plugin_extends(lo: Seq<(Seq<char>, PluginV)>, id: Seq<char>, i: int, j: int)
    requires
        0 <= i <= j <= lo.len(),
        find_plugin(lo.take(i), id) is Some,
    ensures
        find_plugin(lo.take(j), id) == find_plugin(lo.take(i), id),
    decreases j - i,
{
    if j > i {
        lemma_find_plugin_extends(lo, id, i, j - 1);
        assert(lo.take(j).drop_last() =~= lo.take(j - 1));
    }
}

proof fn lemma_find_plugin_in_range(lo: Seq<(Seq<char>, PluginV)>, id: Seq<char>)
    ensures
        find_plugin(lo, id) matches Some(i) ==> 0 <= i < lo.len() && lo[i].0 == id,
    decreases lo.len(),
{
    if lo.len() > 0 {
        lemma_find_plugin_in_range(lo.drop_last(), id);
    }
}

/// The index of the first plugin of id `id`, if any.
fn plugin_index(lo: &Vec<(String, Plugin)>, id: &String) -> (r: Option<usize>)
    ensures
        r matches Some(i) ==> find_plugin(plugins_view(lo@), id@) == Some(i as int),
        r is None ==> find_plugin(plugins_view(lo@), id@) is None,
{
    let ghost v = plugins_view(lo@);
    let mut i: usize = 0;
    assert(v.take(0) =~= Seq::<(Seq<char>, PluginV)>::empty());
    while i < lo.len()
        invariant
            i <= lo@.len(),
            v == plugins_view(lo@),
            find_plugin(v.take(i as int), id@) is None,
        decreases lo.len() - i,
    {
        proof {
            lemma_find_plugin_prefix(v, id@, i as int);
        }
        if lo[i].0 == *id {
            proof {
                lemma_find_plugin_extends(v, id@, i + 1, v.len() as int);
                assert(v.take(v.len() as int) =~= v);
            }
            return Some(i);
        }
        i = i + 1;
    }
    assert(v.take(i as int) =~= v);
    None
}

proof fn lemma_find_widget_prefix(rows: Seq<RowV>, id: u64, i: int)
    requires
        0 <= i < rows.len(),
        find_widget(rows.take(i), id) is None,
    ensures
        find_widget(rows.take(i + 1), id) == if rows[i].widget_id == id {
            Some(i)
        } else {
            None::<int>
        },
{
    assert(rows.take(i + 1).drop_last() =~= rows.take(i));
}

proof fn lemma_find_widget_extends(rows: Seq<RowV>, id: u64, i: int, j: int)
    requires
        0 <= i <= j <= rows.len(),
        find_widget(rows.take(i), id) is Some,
    ensures
        find_widget(rows.take(j), id) == find_widget(rows.take(i), id),
    decreases j - i,
{
    if j > i {
        lemma_find_widget_extends(rows, id, i, j - 1);
        assert(rows.take(j).drop_last() =~= rows.take(j - 1));
    }
}

proof fn lemma_find_widget_in_range(rows: Seq<RowV>, id: u64)
    ensures
        find_widget(rows, id) matches Some(i) ==> 0 <= i < rows.len() && rows[i].widget_id == id,
    decreases rows.len(),
{
    if rows.len() > 0 {
        lemma_find_widget_in_range(rows.drop_last(), id);
    }
}

/// The index of the first row whose widget has the id `id`, if any.
fn widget_index(rows: &Vec<Row>, id: u64) -> (r: Option<usize>)
    ensures
        r matches Some(i) ==> find_widget(rows_view(rows@), id) == Some(i as int),
        r is None ==> find_widget(rows_view(rows@), id) is None,
{
    let ghost v = rows_view(rows@);
    let mut i: usize = 0;
    assert(v.take(0) =~= Seq::<RowV>::empty());
    while i < rows.len()
        invariant
            i <= rows@.len(),
            v == rows_view(rows@),
            find_widget(v.take(i as int), id) is None,
        decreases rows.len() - i,
    {
        proof {
            lemma_find_widget_prefix(v, id, i as int);
        }
        if rows[i].widget_id == id {
            proof {
                lemma_find_widget_extends(v, id, i + 1, v.len() as int);
                assert(v.take(v.len() as int) =~= v);
            }
            return Some(i);
        }
        i = i + 1;
    }
    assert(v.take(i as int) =~= v);
    None
}

/// The widget ids of the rows, in order, but those equal to `id`.
fn other_ids(rows: &Vec<Row>, id: u64) -> (r: Vec<u64>)
    ensures
        r@ == ids_except(rows_view(rows@), id),
{
    let ghost v = rows_view(rows@);
    let mut out: Vec<u64> = Vec::new();
    let mut i: usize = 0;
    assert(v.take(0) =~= Seq::<RowV>::empty());
    while i < rows.len()
        invariant
            i <= rows@.len(),
            v == rows_view(rows@),
            out@ == ids_except(v.take(i as int), id),
        decreases rows.len() - i,
    {
        assert(v.take(i + 1).drop_last() =~= v.take(i as int));
        if rows[i].widget_id != id {
            out.push(rows[i].widget_id);
        }
        i = i + 1;
    }
    assert(v.take(i as int) =~= v);
    out
}

/// The load order after the plugin of priority `from` is moved to priority `to`.
fn reprioritize(lo: &Vec<(String, Plugin)>, from: u32, to: u32) -> (r: Vec<(String, Plugin)>)
    ensures
        plugins_view(r@) == reprioritized(plugins_view(lo@), from, to),
{
    let mut out = copy_plugins(lo);
    let ghost orig = plugins_view(lo@);
    let mut i: usize = 0;
    while i < out.len()
        invariant
            i <= out@.len(),
            out@.len() == orig.len(),
            forall|k: int| 0 <= k < i ==> #[trigger] plugins_view(out@)[k] == reprioritized(orig, from, to)[k],
            forall|k: int| i <= k < out@.len() ==> #[trigger] plugins_view(out@)[k] == orig[k],
        decreases out.len() - i,
    {
        let (id, mut p) = copy_plugin_row(&out[i]);
        let q = p.priority;
        p.priority = if q == from {
            to
        } else if from < to && q >= from && q <= to && q != 0 {
            q - 1
        } else if from > to && q <= from && q >= to {
            q + 1
        } else {
            q
        };
        let ghost before = plugins_view(out@);
        assert(before[i as int] == orig[i as int]);
        assert((id@, p@) == reprioritized(orig, from, to)[i as int]);
        out.set(i, (id, p));
        assert(plugins_view(out@) =~= before.update(i as int, (id@, p@)));
        i = i + 1;
    }
    assert(plugins_view(out@) =~= reprioritized(orig, from, to));
    out
}

impl Instance {
    /// The buffer of an instance whose profile has `load_order`; the rows'
    /// widgets get ids from `first_id` on.
    pub fn with_load_order(load_order: Vec<(String, Plugin)>, first_id: u64) -> (r: Self)
        requires
            first_id + load_order@.len() <= u64::MAX,
        ensures
            r@.table.rows.len() == load_order@.len(),
            crate::priority::is_ranking(priorities(plugins_view(load_order@)))
                && load_order@.len() <= u32::MAX ==> tracks(r@),
            r@ == (InstanceV {
                load_order: plugins_view(load_order@),
                profile_form_input: Seq::empty(),
                state: State::Default,
                table: TableV {
                    focus_row: None,
                    over: None,
                    rows: rows_of(by_priority(plugins_view(load_order@)), first_id),
                    next_id: (first_id + load_order@.len()) as u64,
                },
            }),
    {
        let mut table = Table::new(first_id);
        table.refresh(&load_order);
        proof {
            lemma_by_priority_permutes(plugins_view(load_order@));
        }
        Instance { load_order, profile_form_input: String::new(), state: State::Default, table }
    }

    /// Whether the profile form may be submitted: it names a profile.
    pub fn can_submit_profile(&self) -> (r: bool)
        ensures
            r == (self@.profile_form_input.len() > 0),
    {
        self.profile_form_input.unicode_len() > 0
    }

    /// Handles `message`: updates the buffer and says what the launcher is to do.
    pub fn update(&mut self, message: Message) -> (r: Action)
        ensures
            (final(self)@, r@) == instance_step(old(self)@, message@),
    {
        match message {
            Message::ClickedRow(index) => {
                self.table.focus_row = Some(index);
                Action::Nothing
            },
            Message::DraggedRow => match self.table.focus_row {
                Some(f) => if f < self.table.rows.len() {
                    let id = self.table.rows[f].widget_id;
                    Action::FindZones(other_ids(&self.table.rows, id), ZoneUse::Over)
                } else {
                    Action::Nothing
                },
                None => Action::Nothing,
            },
            Message::DraggedRowCanceled => {
                self.table.over = None;
                Action::Nothing
            },
            Message::DroppedRow => {
                self.table.over = None;
                match self.table.focus_row {
                    Some(f) => if f < self.table.rows.len() {
                        let id = self.table.rows[f].widget_id;
                        Action::FindZones(other_ids(&self.table.rows, id), ZoneUse::Reorder)
                    } else {
                        Action::Nothing
                    },
                    None => Action::Nothing,
                }
            },
            Message::EntryToggled(index, enabled) => {
                if index >= self.table.rows.len() {
                    return Action::Nothing;
                }
                let k = match plugin_index(&self.load_order, &self.table.rows[index].plugin_id) {
                    Some(k) => k,
                    None => return Action::Nothing,
                };
                proof {
                    lemma_find_plugin_in_range(
                        plugins_view(self.load_order@),
                        self.table.rows@[index as int].plugin_id@,
                    );
                }
                let mut load_order = copy_plugins(&self.load_order);
                let (id, mut plugin) = copy_plugin_row(&load_order[k]);
                plugin.enabled = enabled;
                let ghost lo0 = plugins_view(load_order@);
                load_order.set(k, (id, plugin));
                assert(plugins_view(load_order@) =~= lo0.update(
                    k as int,
                    (lo0[k as int].0, with_enabled(lo0[k as int].1, enabled)),
                ));
                let ghost rows0 = rows_view(self.table.rows@);
                let Row { widget_id, plugin_id, plugin: mut shown } = self.table.rows.remove(index);
                shown.enabled = enabled;
                self.table.rows.insert(index, Row { widget_id, plugin_id, plugin: shown });
                assert(rows_view(self.table.rows@) =~= rows0.update(
                    index as int,
                    RowV { plugin: with_enabled(rows0[index as int].plugin, enabled), ..rows0[index as int] },
                ));
                Action::SaveLoadOrder(load_order)
            },
            Message::Launch => Action::Launch,
            Message::Loaded => Action::Loaded,
            Message::Loading => Action::Loading,
            Message::NewPlugin => Action::Nothing,
            Message::OverRow(zones) => {
                if zones.len() > 0 {
                    self.table.over = Some(zones[0]);
                }
                Action::Nothing
            },
            Message::ProfileDeleted => Action::DeleteProfile,
            Message::ProfileFormInputChanged(input) => {
                self.profile_form_input = input;
                Action::Nothing
            },
            Message::ProfileFormSubmitted => Action::CreateProfile(self.profile_form_input.clone()),
            Message::ProfileSelected(name) => Action::SelectProfile(name),
            Message::ReorderRows(zones) => {
                if zones.len() == 0 {
                    return Action::Nothing;
                }
                let from = match self.table.focus_row {
                    Some(f) => f,
                    None => return Action::Nothing,
                };
                let to = match widget_index(&self.table.rows, zones[0]) {
                    Some(t) => t,
                    None => return Action::Nothing,
                };
                Action::SaveLoadOrder(reprioritize(&self.load_order, from as u32, to as u32))
            },
            Message::SettingsPressed => Action::Nothing,
            Message::StateChanged(state) => {
                if self.state == State::ProfileForm {
                    self.profile_form_input = String::new();
                }
                self.state = state;
                Action::Nothing
            },
        }
    }
}

// ---------------------------------------------------------------------------
// Laws
// ---------------------------------------------------------------------------

/// The priorities of a load order, in order.
pub open spec fn priorities(lo: Seq<(Seq<char>, PluginV)>) -> Seq<u32> {
    lo.map_values(|p: (Seq<char>, PluginV)| p.1.priority)
}

/// After a refresh, the rows show every plugin of the load order once, in
/// order of priority (ties in load-order order), each row's widget with an id
/// of its own.
pub proof fn lemma_refreshed_rows(lo: Seq<(Seq<char>, PluginV)>, first: u64)
    requires
        first + lo.len() <= u64::MAX,
    ensures
        ({
            let rows = rows_of(by_priority(lo), first);
            &&& rows.len() == lo.len()
            &&& rows.map_values(|r: RowV| (r.plugin_id, r.plugin)).to_multiset() == lo.to_multiset()
            &&& forall|i: int, j: int|
                0 <= i < j < rows.len() ==> (#[trigger] rows[i]).plugin.priority
                    <= (#[trigger] rows[j]).plugin.priority
            &&& forall|i: int, j: int|
                0 <= i < j < rows.len() ==> (#[trigger] rows[i]).widget_id
                    != (#[trigger] rows[j]).widget_id
        }),
{
    let sorted = by_priority(lo);
    lemma_by_priority_permutes(lo);
    lemma_by_priority_sorted(lo);
    let rows = rows_of(sorted, first);
    assert(rows.map_values(|r: RowV| (r.plugin_id, r.plugin)) =~= sorted);
    assert forall|i: int, j: int| 0 <= i < j < rows.len() implies (#[trigger] rows[i]).plugin.priority
        <= (#[trigger] rows[j]).plugin.priority by {
        assert(sorted[i].1.priority <= sorted[j].1.priority);
    }
}

/// The buffer tracks its profile: the load order's priorities rank its
/// plugins (each of `0..n` held once) and the table has one row for each
/// plugin.
pub open spec fn tracks(s: InstanceV) -> bool {
    &&& crate::priority::is_ranking(priorities(s.load_order))
    &&& s.table.rows.len() == s.load_order.len()
    &&& s.load_order.len() <= u32::MAX
}

/// Every message keeps the buffer tracking its profile: the load order held
/// only changes when the profile is stored and the buffer refreshed, and the
/// rows are only changed in place.
pub proof fn lemma_step_keeps_tracking(s: InstanceV, m: MessageV)
    requires
        tracks(s),
    ensures
        tracks(instance_step(s, m).0),
{
}

/// Dropping a row onto another, in a buffer that tracks its profile, stores a
/// load order whose priorities still rank the plugins, in which the plugin of
/// the dragged row's priority takes the dropped-on row's place; ids, names
/// and versions stay.
pub proof fn lemma_reorder_keeps_ranking(s: InstanceV, zones: Seq<u64>)
    requires
        tracks(s),
        zones.len() > 0,
        s.table.focus_row matches Some(f) && f < s.load_order.len(),
        find_widget(s.table.rows, zones[0]) is Some,
    ensures
        ({
            let from = s.table.focus_row.unwrap();
            let to = find_widget(s.table.rows, zones[0]).unwrap();
            let (t, a) = instance_step(s, MessageV::ReorderRows(zones));
            &&& t == s
            &&& a matches ActionV::SaveLoadOrder(lo) && {
                &&& crate::priority::is_ranking(priorities(lo))
                &&& lo.len() == s.load_order.len()
                &&& forall|k: int|
                    0 <= k < lo.len() ==> (#[trigger] lo[k]).0 == s.load_order[k].0
                        && lo[k].1.enabled == s.load_order[k].1.enabled
                        && lo[k].1.display_name == s.load_order[k].1.display_name
                        && lo[k].1.version == s.load_order[k].1.version
                &&& forall|k: int|
                    0 <= k < lo.len() && s.load_order[k].1.priority == from ==> (#[trigger] lo[k]).1.priority
                        == to
            }
        }),
{
    let from = s.table.focus_row.unwrap();
    let to = find_widget(s.table.rows, zones[0]).unwrap();
    lemma_find_widget_in_range(s.table.rows, zones[0]);
    let lo = reprioritized(s.load_order, from as u32, to as u32);
    let ps = priorities(s.load_order);
    assert(priorities(lo) =~= crate::priority::reordered(ps, from as u32, to as u32));
    crate::priority::lemma_reorder_keeps_ranking(ps, from as u32, to as u32);
    assert forall|k: int| 0 <= k < lo.len() && s.load_order[k].1.priority == from implies (
    #[trigger] lo[k]).1.priority == to by {
        assert(ps[k] == from as u32);
        assert(crate::priority::reordered(ps, from as u32, to as u32)[k] == to as u32);
    }
}

/// Ticking a row changes only whether its plugin is enabled, in the row and
/// in the load order that is stored.
pub proof fn lemma_toggle_changes_one_plugin(s: InstanceV, i: usize, enabled: bool)
    requires
        i < s.table.rows.len(),
        find_plugin(s.load_order, s.table.rows[i as int].plugin_id) is Some,
    ensures
        ({
            let k = find_plugin(s.load_order, s.table.rows[i as int].plugin_id).unwrap();
            let (t, a) = instance_step(s, MessageV::EntryToggled(i, enabled));
            &&& t.table.rows[i as int].plugin.enabled == enabled
            &&& forall|j: int| 0 <= j < s.table.rows.len() && j != i ==> t.table.rows[j] == s.table.rows[j]
            &&& t.load_order == s.load_order
            &&& a matches ActionV::SaveLoadOrder(lo) && lo.len() == s.load_order.len()
                && lo[k].0 == s.table.rows[i as int].plugin_id && lo[k].1.enabled == enabled
                && lo[k].1.priority == s.load_order[k].1.priority
                && forall|j: int| 0 <= j < lo.len() && j != k ==> lo[j] == s.load_order[j]
        }),
{
    lemma_find_plugin_in_range(s.load_order, s.table.rows[i as int].plugin_id);
}

// ---------------------------------------------------------------------------
// What a row and the buffer's tab show
// ---------------------------------------------------------------------------

impl Row {
    /// Whether the plugin's manifest gave both its name and its version; a row
    /// without them is dimmed and marked "Missing or invalid manifest".
    pub fn is_valid(&self) -> (r: bool)
        ensures
            r == (self@.plugin.display_name is Some && self@.plugin.version is Some),
    {
        self.plugin.display_name.is_some() && self.plugin.version.is_some()
    }

    /// The name shown: the plugin's display name, else its id.
    pub fn name_label(&self) -> (r: String)
        ensures
            r@ == match self@.plugin.display_name {
                Some(n) => n,
                None => self@.plugin_id,
            },
    {
        match &self.plugin.display_name {
            Some(n) => n.clone(),
            None => self.plugin_id.clone(),
        }
    }

    /// The version shown: the plugin's version, else `? ? ?`.
    pub fn version_label(&self) -> (r: String)
        ensures
            r@ == match self@.plugin.version {
                Some(v) => v,
                None => "? ? ?"@,
            },
    {
        match &self.plugin.version {
            Some(v) => v.clone(),
            None => crate::text::owned("? ? ?"),
        }
    }
}

/// The title of an instance's tab: the name in its settings, else its
/// directory.
pub fn instance_title(name: &Option<String>, path: &str) -> (r: String)
    ensures
        r@ == match opt_view(*name) {
            Some(n) => n,
            None => path@,
        },
{
    match name {
        Some(n) => n.clone(),
        None => crate::text::owned(path),
    }
}

/// The load order stored after a drop: the plugin of priority `from` takes
/// `to`; moved to a later place (`from < to`), each plugin whose priority `p`
/// lies in `from < p <= to` takes `p - 1`; moved to an earlier place, each
/// whose `p` lies in `to <= p < from` takes `p + 1`; every other priority,
/// and every id, flag, name and version, stays.
pub proof fn lemma_reprioritized_shifts(lo: Seq<(Seq<char>, PluginV)>, from: u32, to: u32)
    ensures
        reprioritized(lo, from, to).len() == lo.len(),
        forall|i: int|
            0 <= i < lo.len() ==> {
                let p = lo[i].1.priority;
                let n = #[trigger] reprioritized(lo, from, to)[i];
                &&& n.0 == lo[i].0
                &&& n.1.enabled == lo[i].1.enabled
                &&& n.1.display_name == lo[i].1.display_name
                &&& n.1.version == lo[i].1.version
                &&& p == from ==> n.1.priority == to
                &&& p != from && from < to && from < p <= to ==> n.1.priority == p - 1
                &&& p != from && to < from && to <= p < from ==> n.1.priority == p + 1
                &&& p != from && !(from < to && from < p <= to) && !(to < from && to <= p < from)
                    ==> n.1.priority == p
            },
{
}

} // verus!
