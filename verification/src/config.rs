//! The launcher's settings: the game's executable, the launcher's options and
//! the mods' load order.

use vstd::prelude::*;

use crate::text::{owned, same_text};

verus! {

/// Options of the launcher itself.
pub struct Launcher {
    pub developer: bool,
    pub explain: bool,
    pub theme: String,
}

impl Default for Launcher {
    fn default() -> (r: Self)
        ensures
            !r.developer,
            !r.explain,
            r.theme@ == "light"@,
    {
        Launcher { developer: false, explain: false, theme: owned("light") }
    }
}

/// The settings stored by the launcher.
pub struct Settings {
    pub exanima_exe: Option<String>,
    pub launcher: Option<Launcher>,
    /// Mod ids in load order, each with whether it is enabled.
    pub load_order: Vec<(String, bool)>,
}

/// The value of a load order.
pub open spec fn load_order_view(v: Seq<(String, bool)>) -> Seq<(Seq<char>, bool)> {
    v.map_values(|m: (String, bool)| (m.0@, m.1))
}

/// The value of [`Launcher`].
pub struct LauncherV {
    pub developer: bool,
    pub explain: bool,
    pub theme: Seq<char>,
}

/// The value of [`Settings`].
pub struct SettingsV {
    pub exanima_exe: Option<Seq<char>>,
    pub launcher: Option<LauncherV>,
    pub load_order: Seq<(Seq<char>, bool)>,
}

impl View for Launcher {
    type V = LauncherV;

    open spec fn view(&self) -> LauncherV {
        LauncherV { developer: self.developer, explain: self.explain, theme: self.theme@ }
    }
}

impl View for Settings {
    type V = SettingsV;

    open spec fn view(&self) -> SettingsV {
        SettingsV {
            exanima_exe: match &self.exanima_exe {
                Some(e) => Some(e@),
                None => None,
            },
            launcher: match &self.launcher {
                Some(l) => Some(l@),
                None => None,
            },
            load_order: load_order_view(self.load_order@),
        }
    }
}

impl Clone for Launcher {
    fn clone(&self) -> (r: Self)
        ensures
            r@ == self@,
    {
        Launcher { developer: self.developer, explain: self.explain, theme: self.theme.clone() }
    }
}

impl Clone for Settings {
    fn clone(&self) -> (r: Self)
        ensures
            r@ == self@,
    {
        let exanima_exe = match &self.exanima_exe {
            Some(e) => Some(e.clone()),
            None => None,
        };
        let launcher = match &self.launcher {
            Some(l) => Some(l.clone()),
            None => None,
        };
        let mut load_order: Vec<(String, bool)> = Vec::new();
        let mut i: usize = 0;
        while i < self.load_order.len()
            invariant
                i <= self.load_order@.len(),
                load_order_view(load_order@) == load_order_view(self.load_order@).take(i as int),
            decreases self.load_order.len() - i,
        {
            let row = copy_row(&self.load_order[i]);
            let ghost before = load_order_view(load_order@);
            load_order.push(row);
            assert(load_order_view(load_order@) =~= before.push(
                load_order_view(self.load_order@)[i as int],
            ));
            i = i + 1;
        }
        assert(load_order_view(self.load_order@).take(i as int) =~= load_order_view(
            self.load_order@,
        ));
        Settings { exanima_exe, launcher, load_order }
    }
}

/// Whether a load order holds a mod of id `id`.
pub open spec fn has_id(lo: Seq<(Seq<char>, bool)>, id: Seq<char>) -> bool {
    exists|i: int| 0 <= i < lo.len() && (#[trigger] lo[i]).0 == id
}

/// The found mods whose ids the load order does not hold yet, in the order found.
pub open spec fn new_mods(lo: Seq<(Seq<char>, bool)>, found: Seq<(Seq<char>, bool)>) -> Seq<
    (Seq<char>, bool),
>
    decreases found.len(),
{
    if found.len() == 0 {
        Seq::empty()
    } else {
        let r = new_mods(lo, found.drop_last());
        if has_id(lo, found.last().0) {
            r
        } else {
            r.push(found.last())
        }
    }
}

/// Copies a load-order row.
fn copy_row(m: &(String, bool)) -> (r: (String, bool))
    ensures
        r.0@ == m.0@,
        r.1 == m.1,
{
    (m.0.clone(), m.1)
}

/// Whether the load order holds a mod of id `id`.
pub fn contains_id(lo: &Vec<(String, bool)>, id: &String) -> (r: bool)
    ensures
        r == has_id(load_order_view(lo@), id@),
{
    let ghost v = load_order_view(lo@);
    let mut i: usize = 0;
    while i < lo.len()
        invariant
            i <= lo.len(),
            v == load_order_view(lo@),
            forall|k: int| 0 <= k < i ==> (#[trigger] v[k]).0 != id@,
        decreases lo.len() - i,
    {
        assert(v[i as int].0 == lo@[i as int].0@);
        if lo[i].0 == *id {
            assert(v[i as int].0 == id@);
            return true;
        }
        i = i + 1;
    }
    false
}

/// The ids of the mods laid over the game's packages, in load order: the
/// enabled ones, but those listed in `missing`.
pub open spec fn active_ids(lo: Seq<(Seq<char>, bool)>, missing: Seq<(Seq<char>, bool)>) -> Seq<
    Seq<char>,
>
    decreases lo.len(),
{
    if lo.len() == 0 {
        Seq::empty()
    } else {
        let r = active_ids(lo.drop_last(), missing);
        if lo.last().1 && !missing.contains(lo.last()) {
            r.push(lo.last().0)
        } else {
            r
        }
    }
}

/// The mods laid over the game are exactly the rows of the load order that
/// are enabled and not listed as missing, in load order, each given by its
/// id: the load order filtered by that test, however many there are.
pub proof fn lemma_active_ids_filter(lo: Seq<(Seq<char>, bool)>, missing: Seq<(Seq<char>, bool)>)
    ensures
        active_ids(lo, missing) == lo.filter(
            |m: (Seq<char>, bool)| m.1 && !missing.contains(m),
        ).map_values(|m: (Seq<char>, bool)| m.0),
    decreases lo.len(),
{
    let pred = |m: (Seq<char>, bool)| m.1 && !missing.contains(m);
    reveal(Seq::filter);
    if lo.len() == 0 {
        assert(lo.filter(pred) =~= Seq::<(Seq<char>, bool)>::empty());
        assert(active_ids(lo, missing) =~= Seq::<Seq<char>>::empty());
    } else {
        lemma_active_ids_filter(lo.drop_last(), missing);
        let f0 = lo.drop_last().filter(pred);
        assert(lo.filter(pred) == if pred(lo.last()) {
            f0.push(lo.last())
        } else {
            f0
        });
        if pred(lo.last()) {
            assert(f0.push(lo.last()).map_values(|m: (Seq<char>, bool)| m.0) =~= f0.map_values(
                |m: (Seq<char>, bool)| m.0,
            ).push(lo.last().0));
        }
    }
}

/// Whether `lo` holds the row `(id, enabled)`.
fn contains_row(lo: &Vec<(String, bool)>, id: &String, enabled: bool) -> (r: bool)
    ensures
        r == load_order_view(lo@).contains((id@, enabled)),
{
    let ghost v = load_order_view(lo@);
    let mut i: usize = 0;
    while i < lo.len()
        invariant
            i <= lo@.len(),
            v == load_order_view(lo@),
            forall|k: int| 0 <= k < i ==> #[trigger] v[k] != (id@, enabled),
        decreases lo.len() - i,
    {
        if lo[i].1 == enabled && lo[i].0 == *id {
            assert(v[i as int] == (id@, enabled));
            return true;
        }
        i = i + 1;
    }
    false
}

/// The ids of the mods to lay over the game's packages, in load order: the
/// enabled ones, but those listed in `missing`.
pub fn active_mods(lo: &Vec<(String, bool)>, missing: &Vec<(String, bool)>) -> (r: Vec<String>)
    ensures
        r@.map_values(|s: String| s@) == active_ids(load_order_view(lo@), load_order_view(missing@)),
{
    let ghost v = load_order_view(lo@);
    let ghost mv = load_order_view(missing@);
    let mut out: Vec<String> = Vec::new();
    let mut i: usize = 0;
    while i < lo.len()
        invariant
            i <= lo@.len(),
            v == load_order_view(lo@),
            mv == load_order_view(missing@),
            out@.map_values(|s: String| s@) == active_ids(v.take(i as int), mv),
        decreases lo.len() - i,
    {
        assert(v.take(i + 1).drop_last() =~= v.take(i as int));
        assert(v.take(i + 1).last() == v[i as int]);
        if lo[i].1 && !contains_row(missing, &lo[i].0, lo[i].1) {
            let ghost before = out@.map_values(|s: String| s@);
            out.push(lo[i].0.clone());
            assert(out@.map_values(|s: String| s@) =~= before.push(v[i as int].0));
        }
        i = i + 1;
    }
    assert(v.take(i as int) =~= v);
    out
}

impl Settings {
    /// Sets the game's executable and adds to the load order, after the mods
    /// it holds, each mod found next to the executable whose id it does not
    /// hold yet.
    pub fn set_exanima_exe(&mut self, exe: String, found: &Vec<(String, bool)>)
        ensures
            final(self).exanima_exe matches Some(e) && e@ == exe@,
            load_order_view(final(self).load_order@) == load_order_view(old(self).load_order@)
                + new_mods(load_order_view(old(self).load_order@), load_order_view(found@)),
            final(self).launcher == old(self).launcher,
    {
        let ghost exe_v = exe@;
        self.exanima_exe = Some(exe);
        let ghost lo = load_order_view(self.load_order@);
        let ghost fv = load_order_view(found@);
        let mut added: Vec<(String, bool)> = Vec::new();
        let mut i: usize = 0;
        assert(fv.take(0) =~= Seq::<(Seq<char>, bool)>::empty());
        while i < found.len()
            invariant
                i <= found.len(),
                lo == load_order_view(self.load_order@),
                fv == load_order_view(found@),
                self.exanima_exe matches Some(e) && e@ == exe_v,
                self.launcher == old(self).launcher,
                load_order_view(added@) == new_mods(lo, fv.take(i as int)),
            decreases found.len() - i,
        {
            assert(fv.take(i + 1).drop_last() =~= fv.take(i as int));
            assert(fv.take(i + 1).last() == fv[i as int]);
            if !contains_id(&self.load_order, &found[i].0) {
                let row = copy_row(&found[i]);
                let ghost before = load_order_view(added@);
                added.push(row);
                assert(load_order_view(added@) =~= before.push(fv[i as int]));
            }
            i = i + 1;
        }
        assert(fv.take(found.len() as int) =~= fv);
        let ghost before = self.load_order@;
        let mut j: usize = 0;
        while j < added.len()
            invariant
                j <= added.len(),
                self.exanima_exe matches Some(e) && e@ == exe_v,
                self.launcher == old(self).launcher,
                load_order_view(self.load_order@) == lo + load_order_view(added@).take(j as int),
            decreases added.len() - j,
        {
            let row = copy_row(&added[j]);
            let ghost b = load_order_view(self.load_order@);
            self.load_order.push(row);
            assert(load_order_view(self.load_order@) =~= b.push(load_order_view(added@)[j as int]));
            assert(load_order_view(added@).take(j + 1) =~= load_order_view(added@).take(j as int).push(
                load_order_view(added@)[j as int],
            ));
            j = j + 1;
        }
        assert(load_order_view(added@).take(added.len() as int) =~= load_order_view(added@));
    }

    /// Turns the developer option on or off; `false` when there are no
    /// launcher options to change.
    pub fn set_developer(&mut self, developer: bool) -> (r: bool)
        ensures
            r == old(self).launcher is Some,
            final(self).exanima_exe == old(self).exanima_exe,
            final(self).load_order == old(self).load_order,
            match (old(self).launcher, final(self).launcher) {
                (Some(a), Some(b)) => b.developer == developer && b.explain == a.explain && b.theme
                    == a.theme,
                (None, None) => true,
                _ => false,
            },
    {
        match &mut self.launcher {
            Some(launcher) => {
                launcher.developer = developer;
                true
            },
            None => false,
        }
    }

    /// Turns the explain option on or off; `false` when there are no launcher
    /// options to change.
    pub fn set_explain(&mut self, explain: bool) -> (r: bool)
        ensures
            r == old(self).launcher is Some,
            final(self).exanima_exe == old(self).exanima_exe,
            final(self).load_order == old(self).load_order,
            match (old(self).launcher, final(self).launcher) {
                (Some(a), Some(b)) => b.explain == explain && b.developer == a.developer && b.theme
                    == a.theme,
                (None, None) => true,
                _ => false,
            },
    {
        match &mut self.launcher {
            Some(launcher) => {
                launcher.explain = explain;
                true
            },
            None => false,
        }
    }

    /// Sets the theme option to the name of `theme`.
    pub fn set_theme(&mut self, theme: ThemeKind)
        requires
            old(self).launcher is Some,
        ensures
            final(self).exanima_exe == old(self).exanima_exe,
            final(self).load_order == old(self).load_order,
            final(self).launcher matches Some(b) && b.theme@ == theme_name(theme)
                && old(self).launcher.unwrap().developer == b.developer
                && old(self).launcher.unwrap().explain == b.explain,
    {
        let name = theme.name();
        match &mut self.launcher {
            Some(launcher) => {
                launcher.theme = owned(name);
            },
            None => {},
        }
    }

    /// Enables or disables the mod at `index` of the load order.
    pub fn set_enabled(&mut self, index: usize, enabled: bool)
        requires
            index < old(self).load_order@.len(),
        ensures
            load_order_view(final(self).load_order@) == load_order_view(
                old(self).load_order@,
            ).update(index as int, (old(self).load_order@[index as int].0@, enabled)),
            final(self).exanima_exe == old(self).exanima_exe,
            final(self).launcher == old(self).launcher,
    {
        let id = self.load_order[index].0.clone();
        let ghost before = load_order_view(self.load_order@);
        self.load_order.set(index, (id, enabled));
        assert(load_order_view(self.load_order@) =~= before.update(
            index as int,
            (old(self).load_order@[index as int].0@, enabled),
        ));
    }

    /// Moves the mod at `from` of the load order to `to`.
    pub fn move_mod(&mut self, from: usize, to: usize)
        requires
            from < old(self).load_order@.len(),
            to < old(self).load_order@.len(),
        ensures
            final(self).load_order@ == old(self).load_order@.remove(from as int).insert(
                to as int,
                old(self).load_order@[from as int],
            ),
            final(self).exanima_exe == old(self).exanima_exe,
            final(self).launcher == old(self).launcher,
    {
        move_item(&mut self.load_order, from, to);
    }
}

/// Moves the item at `from` to `to`: it is taken out, then put back in at `to`.
pub fn move_item<T>(v: &mut Vec<T>, from: usize, to: usize)
    requires
        from < old(v)@.len(),
        to < old(v)@.len(),
    ensures
        final(v)@ == old(v)@.remove(from as int).insert(to as int, old(v)@[from as int]),
{
    let item = v.remove(from);
    v.insert(to, item);
}

/// Moving an item keeps every item, as often: the item moved lands at `to`.
pub proof fn lemma_move_item<T>(s: Seq<T>, from: int, to: int)
    requires
        0 <= from < s.len(),
        0 <= to < s.len(),
    ensures
        s.remove(from).insert(to, s[from]).to_multiset() == s.to_multiset(),
        s.remove(from).insert(to, s[from])[to] == s[from],
        s.remove(from).insert(to, s[from]).len() == s.len(),
{
    broadcast use vstd::seq_lib::group_to_multiset_ensures;
    broadcast use vstd::multiset::group_multiset_axioms;

    let r = s.remove(from);
    assert(r.insert(to, s[from]).to_multiset() == r.to_multiset().insert(s[from]));
    assert(r.to_multiset() == s.to_multiset().remove(s[from]));
    assert(s.to_multiset().count(s[from]) > 0) by {
        assert(s.contains(s[from]));
    }
    assert(s.to_multiset().remove(s[from]).insert(s[from]) =~= s.to_multiset());
}

// ---------------------------------------------------------------------------
// Themes
// ---------------------------------------------------------------------------

/// The themes that the launcher offers.
#[derive(Debug, Clone, Copy, PartialEq, Eq, Structural)]
pub enum ThemeKind {
    Light,
    Dark,
    Dracula,
    Nord,
    SolarizedLight,
    SolarizedDark,
    GruvboxLight,
    GruvboxDark,
    CatppuccinLatte,
    CatppuccinFrappe,
    CatppuccinMacchiato,
    CatppuccinMocha,
    TokyoNight,
    TokyoNightStorm,
    TokyoNightLight,
    KanagawaWave,
    KanagawaDragon,
    KanagawaLotus,
    Moonfly,
    Nightfly,
    Oxocarbon,
    Ferra,
    Custom,
}

/// The name under which a theme is stored.
pub open spec fn theme_name(t: ThemeKind) -> Seq<char> {
    match t {
        ThemeKind::Light => "light"@,
        ThemeKind::Dark => "dark"@,
        ThemeKind::Dracula => "dracula"@,
        ThemeKind::Nord => "nord"@,
        ThemeKind::SolarizedLight => "solarized_light"@,
        ThemeKind::SolarizedDark => "solarized_dark"@,
        ThemeKind::GruvboxLight => "gruvbox_light"@,
        ThemeKind::GruvboxDark => "gruvbox_dark"@,
        ThemeKind::CatppuccinLatte => "catppuccin_latte"@,
        ThemeKind::CatppuccinFrappe => "catppuccin_frappe"@,
        ThemeKind::CatppuccinMacchiato => "catppuccin_macchiato"@,
        ThemeKind::CatppuccinMocha => "catppuccin_mocha"@,
        ThemeKind::TokyoNight => "tokyo_night"@,
        ThemeKind::TokyoNightStorm => "tokyo_night_storm"@,
        ThemeKind::TokyoNightLight => "tokyo_night_light"@,
        ThemeKind::KanagawaWave => "kanagawa_wave"@,
        ThemeKind::KanagawaDragon => "kanagawa_dragon"@,
        ThemeKind::KanagawaLotus => "kanagawa_lotus"@,
        ThemeKind::Moonfly => "moonfly"@,
        ThemeKind::Nightfly => "nightfly"@,
        ThemeKind::Oxocarbon => "oxocarbon"@,
        ThemeKind::Ferra => "ferra"@,
        ThemeKind::Custom => "custom"@,
    }
}

/// The theme stored under `name`: the theme of that name, and the light
/// theme for any other name (the custom theme included).
pub open spec fn theme_of(name: Seq<char>) -> ThemeKind {
    if name == "light"@ {
        ThemeKind::Light
    } else if name == "dark"@ {
        ThemeKind::Dark
    } else if name == "dracula"@ {
        ThemeKind::Dracula
    } else if name == "nord"@ {
        ThemeKind::Nord
    } else if name == "solarized_light"@ {
        ThemeKind::SolarizedLight
    } else if name == "solarized_dark"@ {
        ThemeKind::SolarizedDark
    } else if name == "gruvbox_light"@ {
        ThemeKind::GruvboxLight
    } else if name == "gruvbox_dark"@ {
        ThemeKind::GruvboxDark
    } else if name == "catppuccin_latte"@ {
        ThemeKind::CatppuccinLatte
    } else if name == "catppuccin_frappe"@ {
        ThemeKind::CatppuccinFrappe
    } else if name == "catppuccin_macchiato"@ {
        ThemeKind::CatppuccinMacchiato
    } else if name == "catppuccin_mocha"@ {
        ThemeKind::CatppuccinMocha
    } else if name == "tokyo_night"@ {
        ThemeKind::TokyoNight
    } else if name == "tokyo_night_storm"@ {
        ThemeKind::TokyoNightStorm
    } else if name == "tokyo_night_light"@ {
        ThemeKind::TokyoNightLight
    } else if name == "kanagawa_wave"@ {
        ThemeKind::KanagawaWave
    } else if name == "kanagawa_dragon"@ {
        ThemeKind::KanagawaDragon
    } else if name == "kanagawa_lotus"@ {
        ThemeKind::KanagawaLotus
    } else if name == "moonfly"@ {
        ThemeKind::Moonfly
    } else if name == "nightfly"@ {
        ThemeKind::Nightfly
    } else if name == "oxocarbon"@ {
        ThemeKind::Oxocarbon
    } else if name == "ferra"@ {
        ThemeKind::Ferra
    } else {
        ThemeKind::Light
    }
}

impl ThemeKind {
    /// The name under which this theme is stored.
    pub fn name(&self) -> (r: &'static str)
        ensures
            r@ == theme_name(*self),
    {
        match self {
            ThemeKind::Light => "light",
            ThemeKind::Dark => "dark",
            ThemeKind::Dracula => "dracula",
            ThemeKind::Nord => "nord",
            ThemeKind::SolarizedLight => "solarized_light",
            ThemeKind::SolarizedDark => "solarized_dark",
            ThemeKind::GruvboxLight => "gruvbox_light",
            ThemeKind::GruvboxDark => "gruvbox_dark",
            ThemeKind::CatppuccinLatte => "catppuccin_latte",
            ThemeKind::CatppuccinFrappe => "catppuccin_frappe",
            ThemeKind::CatppuccinMacchiato => "catppuccin_macchiato",
            ThemeKind::CatppuccinMocha => "catppuccin_mocha",
            ThemeKind::TokyoNight => "tokyo_night",
            ThemeKind::TokyoNightStorm => "tokyo_night_storm",
            ThemeKind::TokyoNightLight => "tokyo_night_light",
            ThemeKind::KanagawaWave => "kanagawa_wave",
            ThemeKind::KanagawaDragon => "kanagawa_dragon",
            ThemeKind::KanagawaLotus => "kanagawa_lotus",
            ThemeKind::Moonfly => "moonfly",
            ThemeKind::Nightfly => "nightfly",
            ThemeKind::Oxocarbon => "oxocarbon",
            ThemeKind::Ferra => "ferra",
            ThemeKind::Custom => "custom",
        }
    }

    /// The theme stored under `name`.
    pub fn from_name(name: &str) -> (r: ThemeKind)
        ensures
            r == theme_of(name@),
    {
        if same_text(name, "light") {
            ThemeKind::Light
        } else if same_text(name, "dark") {
            ThemeKind::Dark
        } else if same_text(name, "dracula") {
            ThemeKind::Dracula
        } else if same_text(name, "nord") {
            ThemeKind::Nord
        } else if same_text(name, "solarized_light") {
            ThemeKind::SolarizedLight
        } else if same_text(name, "solarized_dark") {
            ThemeKind::SolarizedDark
        } else if same_text(name, "gruvbox_light") {
            ThemeKind::GruvboxLight
        } else if same_text(name, "gruvbox_dark") {
            ThemeKind::GruvboxDark
        } else if same_text(name, "catppuccin_latte") {
            ThemeKind::CatppuccinLatte
        } else if same_text(name, "catppuccin_frappe") {
            ThemeKind::CatppuccinFrappe
        } else if same_text(name, "catppuccin_macchiato") {
            ThemeKind::CatppuccinMacchiato
        } else if same_text(name, "catppuccin_mocha") {
            ThemeKind::CatppuccinMocha
        } else if same_text(name, "tokyo_night") {
            ThemeKind::TokyoNight
        } else if same_text(name, "tokyo_night_storm") {
            ThemeKind::TokyoNightStorm
        } else if same_text(name, "tokyo_night_light") {
            ThemeKind::TokyoNightLight
        } else if same_text(name, "kanagawa_wave") {
            ThemeKind::KanagawaWave
        } else if same_text(name, "kanagawa_dragon") {
            ThemeKind::KanagawaDragon
        } else if same_text(name, "kanagawa_lotus") {
            ThemeKind::KanagawaLotus
        } else if same_text(name, "moonfly") {
            ThemeKind::Moonfly
        } else if same_text(name, "nightfly") {
            ThemeKind::Nightfly
        } else if same_text(name, "oxocarbon") {
            ThemeKind::Oxocarbon
        } else if same_text(name, "ferra") {
            ThemeKind::Ferra
        } else {
            ThemeKind::Light
        }
    }
}

} // verus!

verus! {

/// A theme other than the custom one is read back as the theme whose name was
/// stored; the custom theme is read back as the light theme.
pub proof fn lemma_theme_roundtrip(t: ThemeKind)
    ensures
        t != ThemeKind::Custom ==> theme_of(theme_name(t)) == t,
        t == ThemeKind::Custom ==> theme_of(theme_name(t)) == ThemeKind::Light,
{
    match t {
        ThemeKind::Light => {
            reveal_strlit("light");
        },
        ThemeKind::Dark => {
            reveal_strlit("dark");
            reveal_strlit("light");
            assert("dark"@.len() != "light"@.len());
        },
        ThemeKind::Dracula => {
            reveal_strlit("dracula");
            reveal_strlit("light");
            assert("dracula"@.len() != "light"@.len());
            reveal_strlit("dark");
            assert("dracula"@.len() != "dark"@.len());
        },
        ThemeKind::Nord => {
            reveal_strlit("nord");
            reveal_strlit("light");
            assert("nord"@.len() != "light"@.len());
            reveal_strlit("dark");
            assert("nord"@[0] != "dark"@[0]);
            reveal_strlit("dracula");
            assert("nord"@.len() != "dracula"@.len());
        },
        ThemeKind::SolarizedLight => {
            reveal_strlit("solarized_light");
            reveal_strlit("light");
            assert("solarized_light"@.len() != "light"@.len());
            reveal_strlit("dark");
            assert("solarized_light"@.len() != "dark"@.len());
            reveal_strlit("dracula");
            assert("solarized_light"@.len() != "dracula"@.len());
            reveal_strlit("nord");
            assert("solarized_light"@.len() != "nord"@.len());
        },
        ThemeKind::SolarizedDark => {
            reveal_strlit("solarized_dark");
            reveal_strlit("light");
            assert("solarized_dark"@.len() != "light"@.len());
            reveal_strlit("dark");
            assert("solarized_dark"@.len() != "dark"@.len());
            reveal_strlit("dracula");
            assert("solarized_dark"@.len() != "dracula"@.len());
            reveal_strlit("nord");
            assert("solarized_dark"@.len() != "nord"@.len());
            reveal_strlit("solarized_light");
            assert("solarized_dark"@.len() != "solarized_light"@.len());
        },
        ThemeKind::GruvboxLight => {
            reveal_strlit("gruvbox_light");
            reveal_strlit("light");
            assert("gruvbox_light"@.len() != "light"@.len());
            reveal_strlit("dark");
            assert("gruvbox_light"@.len() != "dark"@.len());
            reveal_strlit("dracula");
            assert("gruvbox_light"@.len() != "dracula"@.len());
            reveal_strlit("nord");
            assert("gruvbox_light"@.len() != "nord"@.len());
            reveal_strlit("solarized_light");
            assert("gruvbox_light"@.len() != "solarized_light"@.len());
            reveal_strlit("solarized_dark");
            assert("gruvbox_light"@.len() != "solarized_dark"@.len());
        },
        ThemeKind::GruvboxDark => {
            reveal_strlit("gruvbox_dark");
            reveal_strlit("light");
            assert("gruvbox_dark"@.len() != "light"@.len());
            reveal_strlit("dark");
            assert("gruvbox_dark"@.len() != "dark"@.len());
            reveal_strlit("dracula");
            assert("gruvbox_dark"@.len() != "dracula"@.len());
            reveal_strlit("nord");
            assert("gruvbox_dark"@.len() != "nord"@.len());
            reveal_strlit("solarized_light");
            assert("gruvbox_dark"@.len() != "solarized_light"@.len());
            reveal_strlit("solarized_dark");
            assert("gruvbox_dark"@.len() != "solarized_dark"@.len());
            reveal_strlit("gruvbox_light");
            assert("gruvbox_dark"@.len() != "gruvbox_light"@.len());
        },
        ThemeKind::CatppuccinLatte => {
            reveal_strlit("catppuccin_latte");
            reveal_strlit("light");
            assert("catppuccin_latte"@.len() != "light"@.len());
            reveal_strlit("dark");
            assert("catppuccin_latte"@.len() != "dark"@.len());
            reveal_strlit("dracula");
            assert("catppuccin_latte"@.len() != "dracula"@.len());
            reveal_strlit("nord");
            assert("catppuccin_latte"@.len() != "nord"@.len());
            reveal_strlit("solarized_light");
            assert("catppuccin_latte"@.len() != "solarized_light"@.len());
            reveal_strlit("solarized_dark");
            assert("catppuccin_latte"@.len() != "solarized_dark"@.len());
            reveal_strlit("gruvbox_light");
            assert("catppuccin_latte"@.len() != "gruvbox_light"@.len());
            reveal_strlit("gruvbox_dark");
            assert("catppuccin_latte"@.len() != "gruvbox_dark"@.len());
        },
        ThemeKind::CatppuccinFrappe => {
            reveal_strlit("catppuccin_frappe");
            reveal_strlit("light");
            assert("catppuccin_frappe"@.len() != "light"@.len());
            reveal_strlit("dark");
            assert("catppuccin_frappe"@.len() != "dark"@.len());
            reveal_strlit("dracula");
            assert("catppuccin_frappe"@.len() != "dracula"@.len());
            reveal_strlit("nord");
            assert("catppuccin_frappe"@.len() != "nord"@.len());
            reveal_strlit("solarized_light");
            assert("catppuccin_frappe"@.len() != "solarized_light"@.len());
            reveal_strlit("solarized_dark");
            assert("catppuccin_frappe"@.len() != "solarized_dark"@.len());
            reveal_strlit("gruvbox_light");
            assert("catppuccin_frappe"@.len() != "gruvbox_light"@.len());
            reveal_strlit("gruvbox_dark");
            assert("catppuccin_frappe"@.len() != "gruvbox_dark"@.len());
            reveal_strlit("catppuccin_latte");
            assert("catppuccin_frappe"@.len() != "catppuccin_latte"@.len());
        },
        ThemeKind::CatppuccinMacchiato => {
            reveal_strlit("catppuccin_macchiato");
            reveal_strlit("light");
            assert("catppuccin_macchiato"@.len() != "light"@.len());
            reveal_strlit("dark");
            assert("catppuccin_macchiato"@.len() != "dark"@.len());
            reveal_strlit("dracula");
            assert("catppuccin_macchiato"@.len() != "dracula"@.len());
            reveal_strlit("nord");
            assert("catppuccin_macchiato"@.len() != "nord"@.len());
            reveal_strlit("solarized_light");
            assert("catppuccin_macchiato"@.len() != "solarized_light"@.len());
            reveal_strlit("solarized_dark");
            assert("catppuccin_macchiato"@.len() != "solarized_dark"@.len());
            reveal_strlit("gruvbox_light");
            assert("catppuccin_macchiato"@.len() != "gruvbox_light"@.len());
            reveal_strlit("gruvbox_dark");
            assert("catppuccin_macchiato"@.len() != "gruvbox_dark"@.len());
            reveal_strlit("catppuccin_latte");
            assert("catppuccin_macchiato"@.len() != "catppuccin_latte"@.len());
            reveal_strlit("catppuccin_frappe");
            assert("catppuccin_macchiato"@.len() != "catppuccin_frappe"@.len());
        },
        ThemeKind::CatppuccinMocha => {
            reveal_strlit("catppuccin_mocha");
            reveal_strlit("light");
            assert("catppuccin_mocha"@.len() != "light"@.len());
            reveal_strlit("dark");
            assert("catppuccin_mocha"@.len() != "dark"@.len());
            reveal_strlit("dracula");
            assert("catppuccin_mocha"@.len() != "dracula"@.len());
            reveal_strlit("nord");
            assert("catppuccin_mocha"@.len() != "nord"@.len());
            reveal_strlit("solarized_light");
            assert("catppuccin_mocha"@.len() != "solarized_light"@.len());
            reveal_strlit("solarized_dark");
            assert("catppuccin_mocha"@.len() != "solarized_dark"@.len());
            reveal_strlit("gruvbox_light");
            assert("catppuccin_mocha"@.len() != "gruvbox_light"@.len());
            reveal_strlit("gruvbox_dark");
            assert("catppuccin_mocha"@.len() != "gruvbox_dark"@.len());
            reveal_strlit("catppuccin_latte");
            assert("catppuccin_mocha"@[11] != "catppuccin_latte"@[11]);
            reveal_strlit("catppuccin_frappe");
            assert("catppuccin_mocha"@.len() != "catppuccin_frappe"@.len());
            reveal_strlit("catppuccin_macchiato");
            assert("catppuccin_mocha"@.len() != "catppuccin_macchiato"@.len());
        },
        ThemeKind::TokyoNight => {
            reveal_strlit("tokyo_night");
            reveal_strlit("light");
            assert("tokyo_night"@.len() != "light"@.len());
            reveal_strlit("dark");
            assert("tokyo_night"@.len() != "dark"@.len());
            reveal_strlit("dracula");
            assert("tokyo_night"@.len() != "dracula"@.len());
            reveal_strlit("nord");
            assert("tokyo_night"@.len() != "nord"@.len());
            reveal_strlit("solarized_light");
            assert("tokyo_night"@.len() != "solarized_light"@.len());
            reveal_strlit("solarized_dark");
            assert("tokyo_night"@.len() != "solarized_dark"@.len());
            reveal_strlit("gruvbox_light");
            assert("tokyo_night"@.len() != "gruvbox_light"@.len());
            reveal_strlit("gruvbox_dark");
            assert("tokyo_night"@.len() != "gruvbox_dark"@.len());
            reveal_strlit("catppuccin_latte");
            assert("tokyo_night"@.len() != "catppuccin_latte"@.len());
            reveal_strlit("catppuccin_frappe");
            assert("tokyo_night"@.len() != "catppuccin_frappe"@.len());
            reveal_strlit("catppuccin_macchiato");
            assert("tokyo_night"@.len() != "catppuccin_macchiato"@.len());
            reveal_strlit("catppuccin_mocha");
            assert("tokyo_night"@.len() != "catppuccin_mocha"@.len());
        },
        ThemeKind::TokyoNightStorm => {
            reveal_strlit("tokyo_night_storm");
            reveal_strlit("light");
            assert("tokyo_night_storm"@.len() != "light"@.len());
            reveal_strlit("dark");
            assert("tokyo_night_storm"@.len() != "dark"@.len());
            reveal_strlit("dracula");
            assert("tokyo_night_storm"@.len() != "dracula"@.len());
            reveal_strlit("nord");
            assert("tokyo_night_storm"@.len() != "nord"@.len());
            reveal_strlit("solarized_light");
            assert("tokyo_night_storm"@.len() != "solarized_light"@.len());
            reveal_strlit("solarized_dark");
            assert("tokyo_night_storm"@.len() != "solarized_dark"@.len());
            reveal_strlit("gruvbox_light");
            assert("tokyo_night_storm"@.len() != "gruvbox_light"@.len());
            reveal_strlit("gruvbox_dark");
            assert("tokyo_night_storm"@.len() != "gruvbox_dark"@.len());
            reveal_strlit("catppuccin_latte");
            assert("tokyo_night_storm"@.len() != "catppuccin_latte"@.len());
            reveal_strlit("catppuccin_frappe");
            assert("tokyo_night_storm"@[0] != "catppuccin_frappe"@[0]);
            reveal_strlit("catppuccin_macchiato");
            assert("tokyo_night_storm"@.len() != "catppuccin_macchiato"@.len());
            reveal_strlit("catppuccin_mocha");
            assert("tokyo_night_storm"@.len() != "catppuccin_mocha"@.len());
            reveal_strlit("tokyo_night");
            assert("tokyo_night_storm"@.len() != "tokyo_night"@.len());
        },
        ThemeKind::TokyoNightLight => {
            reveal_strlit("tokyo_night_light");
            reveal_strlit("light");
            assert("tokyo_night_light"@.len() != "light"@.len());
            reveal_strlit("dark");
            assert("tokyo_night_light"@.len() != "dark"@.len());
            reveal_strlit("dracula");
            assert("tokyo_night_light"@.len() != "dracula"@.len());
            reveal_strlit("nord");
            assert("tokyo_night_light"@.len() != "nord"@.len());
            reveal_strlit("solarized_light");
            assert("tokyo_night_light"@.len() != "solarized_light"@.len());
            reveal_strlit("solarized_dark");
            assert("tokyo_night_light"@.len() != "solarized_dark"@.len());
            reveal_strlit("gruvbox_light");
            assert("tokyo_night_light"@.len() != "gruvbox_light"@.len());
            reveal_strlit("gruvbox_dark");
            assert("tokyo_night_light"@.len() != "gruvbox_dark"@.len());
            reveal_strlit("catppuccin_latte");
            assert("tokyo_night_light"@.len() != "catppuccin_latte"@.len());
            reveal_strlit("catppuccin_frappe");
            assert("tokyo_night_light"@[0] != "catppuccin_frappe"@[0]);
            reveal_strlit("catppuccin_macchiato");
            assert("tokyo_night_light"@.len() != "catppuccin_macchiato"@.len());
            reveal_strlit("catppuccin_mocha");
            assert("tokyo_night_light"@.len() != "catppuccin_mocha"@.len());
            reveal_strlit("tokyo_night");
            assert("tokyo_night_light"@.len() != "tokyo_night"@.len());
            reveal_strlit("tokyo_night_storm");
            assert("tokyo_night_light"@[12] != "tokyo_night_storm"@[12]);
        },
        ThemeKind::KanagawaWave => {
            reveal_strlit("kanagawa_wave");
            reveal_strlit("light");
            assert("kanagawa_wave"@.len() != "light"@.len());
            reveal_strlit("dark");
            assert("kanagawa_wave"@.len() != "dark"@.len());
            reveal_strlit("dracula");
            assert("kanagawa_wave"@.len() != "dracula"@.len());
            reveal_strlit("nord");
            assert("kanagawa_wave"@.len() != "nord"@.len());
            reveal_strlit("solarized_light");
            assert("kanagawa_wave"@.len() != "solarized_light"@.len());
            reveal_strlit("solarized_dark");
            assert("kanagawa_wave"@.len() != "solarized_dark"@.len());
            reveal_strlit("gruvbox_light");
            assert("kanagawa_wave"@[0] != "gruvbox_light"@[0]);
            reveal_strlit("gruvbox_dark");
            assert("kanagawa_wave"@.len() != "gruvbox_dark"@.len());
            reveal_strlit("catppuccin_latte");
            assert("kanagawa_wave"@.len() != "catppuccin_latte"@.len());
            reveal_strlit("catppuccin_frappe");
            assert("kanagawa_wave"@.len() != "catppuccin_frappe"@.len());
            reveal_strlit("catppuccin_macchiato");
            assert("kanagawa_wave"@.len() != "catppuccin_macchiato"@.len());
            reveal_strlit("catppuccin_mocha");
            assert("kanagawa_wave"@.len() != "catppuccin_mocha"@.len());
            reveal_strlit("tokyo_night");
            assert("kanagawa_wave"@.len() != "tokyo_night"@.len());
            reveal_strlit("tokyo_night_storm");
            assert("kanagawa_wave"@.len() != "tokyo_night_storm"@.len());
            reveal_strlit("tokyo_night_light");
            assert("kanagawa_wave"@.len() != "tokyo_night_light"@.len());
        },
        ThemeKind::KanagawaDragon => {
            reveal_strlit("kanagawa_dragon");
            reveal_strlit("light");
            assert("kanagawa_dragon"@.len() != "light"@.len());
            reveal_strlit("dark");
            assert("kanagawa_dragon"@.len() != "dark"@.len());
            reveal_strlit("dracula");
            assert("kanagawa_dragon"@.len() != "dracula"@.len());
            reveal_strlit("nord");
            assert("kanagawa_dragon"@.len() != "nord"@.len());
            reveal_strlit("solarized_light");
            assert("kanagawa_dragon"@[0] != "solarized_light"@[0]);
            reveal_strlit("solarized_dark");
            assert("kanagawa_dragon"@.len() != "solarized_dark"@.len());
            reveal_strlit("gruvbox_light");
            assert("kanagawa_dragon"@.len() != "gruvbox_light"@.len());
            reveal_strlit("gruvbox_dark");
            assert("kanagawa_dragon"@.len() != "gruvbox_dark"@.len());
            reveal_strlit("catppuccin_latte");
            assert("kanagawa_dragon"@.len() != "catppuccin_latte"@.len());
            reveal_strlit("catppuccin_frappe");
            assert("kanagawa_dragon"@.len() != "catppuccin_frappe"@.len());
            reveal_strlit("catppuccin_macchiato");
            assert("kanagawa_dragon"@.len() != "catppuccin_macchiato"@.len());
            reveal_strlit("catppuccin_mocha");
            assert("kanagawa_dragon"@.len() != "catppuccin_mocha"@.len());
            reveal_strlit("tokyo_night");
            assert("kanagawa_dragon"@.len() != "tokyo_night"@.len());
            reveal_strlit("tokyo_night_storm");
            assert("kanagawa_dragon"@.len() != "tokyo_night_storm"@.len());
            reveal_strlit("tokyo_night_light");
            assert("kanagawa_dragon"@.len() != "tokyo_night_light"@.len());
            reveal_strlit("kanagawa_wave");
            assert("kanagawa_dragon"@.len() != "kanagawa_wave"@.len());
        },
        ThemeKind::KanagawaLotus => {
            reveal_strlit("kanagawa_lotus");
            reveal_strlit("light");
            assert("kanagawa_lotus"@.len() != "light"@.len());
            reveal_strlit("dark");
            assert("kanagawa_lotus"@.len() != "dark"@.len());
            reveal_strlit("dracula");
            assert("kanagawa_lotus"@.len() != "dracula"@.len());
            reveal_strlit("nord");
            assert("kanagawa_lotus"@.len() != "nord"@.len());
            reveal_strlit("solarized_light");
            assert("kanagawa_lotus"@.len() != "solarized_light"@.len());
            reveal_strlit("solarized_dark");
            assert("kanagawa_lotus"@[0] != "solarized_dark"@[0]);
            reveal_strlit("gruvbox_light");
            assert("kanagawa_lotus"@.len() != "gruvbox_light"@.len());
            reveal_strlit("gruvbox_dark");
            assert("kanagawa_lotus"@.len() != "gruvbox_dark"@.len());
            reveal_strlit("catppuccin_latte");
            assert("kanagawa_lotus"@.len() != "catppuccin_latte"@.len());
            reveal_strlit("catppuccin_frappe");
            assert("kanagawa_lotus"@.len() != "catppuccin_frappe"@.len());
            reveal_strlit("catppuccin_macchiato");
            assert("kanagawa_lotus"@.len() != "catppuccin_macchiato"@.len());
            reveal_strlit("catppuccin_mocha");
            assert("kanagawa_lotus"@.len() != "catppuccin_mocha"@.len());
            reveal_strlit("tokyo_night");
            assert("kanagawa_lotus"@.len() != "tokyo_night"@.len());
            reveal_strlit("tokyo_night_storm");
            assert("kanagawa_lotus"@.len() != "tokyo_night_storm"@.len());
            reveal_strlit("tokyo_night_light");
            assert("kanagawa_lotus"@.len() != "tokyo_night_light"@.len());
            reveal_strlit("kanagawa_wave");
            assert("kanagawa_lotus"@.len() != "kanagawa_wave"@.len());
            reveal_strlit("kanagawa_dragon");
            assert("kanagawa_lotus"@.len() != "kanagawa_dragon"@.len());
        },
        ThemeKind::Moonfly => {
            reveal_strlit("moonfly");
            reveal_strlit("light");
            assert("moonfly"@.len() != "light"@.len());
            reveal_strlit("dark");
            assert("moonfly"@.len() != "dark"@.len());
            reveal_strlit("dracula");
            assert("moonfly"@[0] != "dracula"@[0]);
            reveal_strlit("nord");
            assert("moonfly"@.len() != "nord"@.len());
            reveal_strlit("solarized_light");
            assert("moonfly"@.len() != "solarized_light"@.len());
            reveal_strlit("solarized_dark");
            assert("moonfly"@.len() != "solarized_dark"@.len());
            reveal_strlit("gruvbox_light");
            assert("moonfly"@.len() != "gruvbox_light"@.len());
            reveal_strlit("gruvbox_dark");
            assert("moonfly"@.len() != "gruvbox_dark"@.len());
            reveal_strlit("catppuccin_latte");
            assert("moonfly"@.len() != "catppuccin_latte"@.len());
            reveal_strlit("catppuccin_frappe");
            assert("moonfly"@.len() != "catppuccin_frappe"@.len());
            reveal_strlit("catppuccin_macchiato");
            assert("moonfly"@.len() != "catppuccin_macchiato"@.len());
            reveal_strlit("catppuccin_mocha");
            assert("moonfly"@.len() != "catppuccin_mocha"@.len());
            reveal_strlit("tokyo_night");
            assert("moonfly"@.len() != "tokyo_night"@.len());
            reveal_strlit("tokyo_night_storm");
            assert("moonfly"@.len() != "tokyo_night_storm"@.len());
            reveal_strlit("tokyo_night_light");
            assert("moonfly"@.len() != "tokyo_night_light"@.len());
            reveal_strlit("kanagawa_wave");
            assert("moonfly"@.len() != "kanagawa_wave"@.len());
            reveal_strlit("kanagawa_dragon");
            assert("moonfly"@.len() != "kanagawa_dragon"@.len());
            reveal_strlit("kanagawa_lotus");
            assert("moonfly"@.len() != "kanagawa_lotus"@.len());
        },
        ThemeKind::Nightfly => {
            reveal_strlit("nightfly");
            reveal_strlit("light");
            assert("nightfly"@.len() != "light"@.len());
            reveal_strlit("dark");
            assert("nightfly"@.len() != "dark"@.len());
            reveal_strlit("dracula");
            assert("nightfly"@.len() != "dracula"@.len());
            reveal_strlit("nord");
            assert("nightfly"@.len() != "nord"@.len());
            reveal_strlit("solarized_light");
            assert("nightfly"@.len() != "solarized_light"@.len());
            reveal_strlit("solarized_dark");
            assert("nightfly"@.len() != "solarized_dark"@.len());
            reveal_strlit("gruvbox_light");
            assert("nightfly"@.len() != "gruvbox_light"@.len());
            reveal_strlit("gruvbox_dark");
            assert("nightfly"@.len() != "gruvbox_dark"@.len());
            reveal_strlit("catppuccin_latte");
            assert("nightfly"@.len() != "catppuccin_latte"@.len());
            reveal_strlit("catppuccin_frappe");
            assert("nightfly"@.len() != "catppuccin_frappe"@.len());
            reveal_strlit("catppuccin_macchiato");
            assert("nightfly"@.len() != "catppuccin_macchiato"@.len());
            reveal_strlit("catppuccin_mocha");
            assert("nightfly"@.len() != "catppuccin_mocha"@.len());
            reveal_strlit("tokyo_night");
            assert("nightfly"@.len() != "tokyo_night"@.len());
            reveal_strlit("tokyo_night_storm");
            assert("nightfly"@.len() != "tokyo_night_storm"@.len());
            reveal_strlit("tokyo_night_light");
            assert("nightfly"@.len() != "tokyo_night_light"@.len());
            reveal_strlit("kanagawa_wave");
            assert("nightfly"@.len() != "kanagawa_wave"@.len());
            reveal_strlit("kanagawa_dragon");
            assert("nightfly"@.len() != "kanagawa_dragon"@.len());
            reveal_strlit("kanagawa_lotus");
            assert("nightfly"@.len() != "kanagawa_lotus"@.len());
            reveal_strlit("moonfly");
            assert("nightfly"@.len() != "moonfly"@.len());
        },
        ThemeKind::Oxocarbon => {
            reveal_strlit("oxocarbon");
            reveal_strlit("light");
            assert("oxocarbon"@.len() != "light"@.len());
            reveal_strlit("dark");
            assert("oxocarbon"@.len() != "dark"@.len());
            reveal_strlit("dracula");
            assert("oxocarbon"@.len() != "dracula"@.len());
            reveal_strlit("nord");
            assert("oxocarbon"@.len() != "nord"@.len());
            reveal_strlit("solarized_light");
            assert("oxocarbon"@.len() != "solarized_light"@.len());
            reveal_strlit("solarized_dark");
            assert("oxocarbon"@.len() != "solarized_dark"@.len());
            reveal_strlit("gruvbox_light");
            assert("oxocarbon"@.len() != "gruvbox_light"@.len());
            reveal_strlit("gruvbox_dark");
            assert("oxocarbon"@.len() != "gruvbox_dark"@.len());
            reveal_strlit("catppuccin_latte");
            assert("oxocarbon"@.len() != "catppuccin_latte"@.len());
            reveal_strlit("catppuccin_frappe");
            assert("oxocarbon"@.len() != "catppuccin_frappe"@.len());
            reveal_strlit("catppuccin_macchiato");
            assert("oxocarbon"@.len() != "catppuccin_macchiato"@.len());
            reveal_strlit("catppuccin_mocha");
            assert("oxocarbon"@.len() != "catppuccin_mocha"@.len());
            reveal_strlit("tokyo_night");
            assert("oxocarbon"@.len() != "tokyo_night"@.len());
            reveal_strlit("tokyo_night_storm");
            assert("oxocarbon"@.len() != "tokyo_night_storm"@.len());
            reveal_strlit("tokyo_night_light");
            assert("oxocarbon"@.len() != "tokyo_night_light"@.len());
            reveal_strlit("kanagawa_wave");
            assert("oxocarbon"@.len() != "kanagawa_wave"@.len());
            reveal_strlit("kanagawa_dragon");
            assert("oxocarbon"@.len() != "kanagawa_dragon"@.len());
            reveal_strlit("kanagawa_lotus");
            assert("oxocarbon"@.len() != "kanagawa_lotus"@.len());
            reveal_strlit("moonfly");
            assert("oxocarbon"@.len() != "moonfly"@.len());
            reveal_strlit("nightfly");
            assert("oxocarbon"@.len() != "nightfly"@.len());
        },
        ThemeKind::Ferra => {
            reveal_strlit("ferra");
            reveal_strlit("light");
            assert("ferra"@[0] != "light"@[0]);
            reveal_strlit("dark");
            assert("ferra"@.len() != "dark"@.len());
            reveal_strlit("dracula");
            assert("ferra"@.len() != "dracula"@.len());
            reveal_strlit("nord");
            assert("ferra"@.len() != "nord"@.len());
            reveal_strlit("solarized_light");
            assert("ferra"@.len() != "solarized_light"@.len());
            reveal_strlit("solarized_dark");
            assert("ferra"@.len() != "solarized_dark"@.len());
            reveal_strlit("gruvbox_light");
            assert("ferra"@.len() != "gruvbox_light"@.len());
            reveal_strlit("gruvbox_dark");
            assert("ferra"@.len() != "gruvbox_dark"@.len());
            reveal_strlit("catppuccin_latte");
            assert("ferra"@.len() != "catppuccin_latte"@.len());
            reveal_strlit("catppuccin_frappe");
            assert("ferra"@.len() != "catppuccin_frappe"@.len());
            reveal_strlit("catppuccin_macchiato");
            assert("ferra"@.len() != "catppuccin_macchiato"@.len());
            reveal_strlit("catppuccin_mocha");
            assert("ferra"@.len() != "catppuccin_mocha"@.len());
            reveal_strlit("tokyo_night");
            assert("ferra"@.len() != "tokyo_night"@.len());
            reveal_strlit("tokyo_night_storm");
            assert("ferra"@.len() != "tokyo_night_storm"@.len());
            reveal_strlit("tokyo_night_light");
            assert("ferra"@.len() != "tokyo_night_light"@.len());
            reveal_strlit("kanagawa_wave");
            assert("ferra"@.len() != "kanagawa_wave"@.len());
            reveal_strlit("kanagawa_dragon");
            assert("ferra"@.len() != "kanagawa_dragon"@.len());
            reveal_strlit("kanagawa_lotus");
            assert("ferra"@.len() != "kanagawa_lotus"@.len());
            reveal_strlit("moonfly");
            assert("ferra"@.len() != "moonfly"@.len());
            reveal_strlit("nightfly");
            assert("ferra"@.len() != "nightfly"@.len());
            reveal_strlit("oxocarbon");
            assert("ferra"@.len() != "oxocarbon"@.len());
        },
        ThemeKind::Custom => {
            reveal_strlit("custom");
            reveal_strlit("light");
            assert("custom"@.len() != "light"@.len());
            reveal_strlit("dark");
            assert("custom"@.len() != "dark"@.len());
            reveal_strlit("dracula");
            assert("custom"@.len() != "dracula"@.len());
            reveal_strlit("nord");
            assert("custom"@.len() != "nord"@.len());
            reveal_strlit("solarized_light");
            assert("custom"@.len() != "solarized_light"@.len());
            reveal_strlit("solarized_dark");
            assert("custom"@.len() != "solarized_dark"@.len());
            reveal_strlit("gruvbox_light");
            assert("custom"@.len() != "gruvbox_light"@.len());
            reveal_strlit("gruvbox_dark");
            assert("custom"@.len() != "gruvbox_dark"@.len());
            reveal_strlit("catppuccin_latte");
            assert("custom"@.len() != "catppuccin_latte"@.len());
            reveal_strlit("catppuccin_frappe");
            assert("custom"@.len() != "catppuccin_frappe"@.len());
            reveal_strlit("catppuccin_macchiato");
            assert("custom"@.len() != "catppuccin_macchiato"@.len());
            reveal_strlit("catppuccin_mocha");
            assert("custom"@.len() != "catppuccin_mocha"@.len());
            reveal_strlit("tokyo_night");
            assert("custom"@.len() != "tokyo_night"@.len());
            reveal_strlit("tokyo_night_storm");
            assert("custom"@.len() != "tokyo_night_storm"@.len());
            reveal_strlit("tokyo_night_light");
            assert("custom"@.len() != "tokyo_night_light"@.len());
            reveal_strlit("kanagawa_wave");
            assert("custom"@.len() != "kanagawa_wave"@.len());
            reveal_strlit("kanagawa_dragon");
            assert("custom"@.len() != "kanagawa_dragon"@.len());
            reveal_strlit("kanagawa_lotus");
            assert("custom"@.len() != "kanagawa_lotus"@.len());
            reveal_strlit("moonfly");
            assert("custom"@.len() != "moonfly"@.len());
            reveal_strlit("nightfly");
            assert("custom"@.len() != "nightfly"@.len());
            reveal_strlit("oxocarbon");
            assert("custom"@.len() != "oxocarbon"@.len());
            reveal_strlit("ferra");
            assert("custom"@.len() != "ferra"@.len());
        },
    }
}

/// Every found mod's id is in the load order after it is extended, and no mod
/// added has an id that the load order held.
pub proof fn lemma_new_mods(lo: Seq<(Seq<char>, bool)>, found: Seq<(Seq<char>, bool)>)
    ensures
        forall|i: int| 0 <= i < found.len() ==> has_id(lo + new_mods(lo, found), (#[trigger] found[i]).0),
        forall|j: int| 0 <= j < new_mods(lo, found).len() ==> !has_id(lo, (#[trigger] new_mods(lo, found)[j]).0),
    decreases found.len(),
{
    if found.len() > 0 {
        let init = found.drop_last();
        lemma_new_mods(lo, init);
        let r = new_mods(lo, init);
        let all = lo + new_mods(lo, found);
        assert forall|i: int| 0 <= i < found.len() implies has_id(all, (#[trigger] found[i]).0) by {
            if i < found.len() - 1 {
                assert(found[i] == init[i]);
                assert(has_id(lo + r, init[i].0));
                let k = choose|k: int| 0 <= k < (lo + r).len() && (#[trigger] (lo + r)[k]).0 == init[i].0;
                assert(all[k] == (lo + r)[k]);
            } else if has_id(lo, found.last().0) {
                let k = choose|k: int| 0 <= k < lo.len() && (#[trigger] lo[k]).0 == found.last().0;
                assert(all[k] == lo[k]);
            } else {
                assert(all[all.len() - 1] == found.last());
            }
        }
    }
}

} // verus!
