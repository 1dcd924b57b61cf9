//! The settings screen (shown as a screen, or as a dialog when the game's
//! executable is still unknown): what it holds, what each message changes,
//! what it asks the launcher to do, and which of its parts it shows.

use vstd::prelude::*;

use crate::config::{
    load_order_view, new_mods, theme_name, LauncherV, Settings, SettingsV, ThemeKind,
};
use crate::text::owned;

verus! {

/// The settings screen.
pub struct SettingsScreen {
    /// Bytes held by the cache of prepared packages.
    pub cache_size: u64,
    /// The settings being edited.
    pub config: Settings,
    /// The text of the executable's path field.
    pub exanima_exe: String,
    /// The theme picked.
    pub theme: ThemeKind,
    /// Whether the screen is shown as a dialog.
    pub in_dialog: bool,
}

/// What the settings screen is told.
pub enum Message {
    /// Measure the cache again.
    CacheChecked,
    /// Clear the cache.
    CacheCleared,
    /// The cache holds this many bytes.
    CacheSize(u64),
    /// Open the cache's folder.
    CacheOpened,
    /// Show the changelog.
    Changelog,
    /// Open the settings' folder.
    ConfigOpened,
    /// The settings were read again.
    ConfigRefetched(Settings),
    /// Confirm the dialog.
    Confirm,
    DeveloperToggled(bool),
    /// An executable's path was picked: the path, whether it names a file,
    /// and the mods found next to it, in the order found.
    ExanimaExe(String, bool, Vec<(String, bool)>),
    ExplainToggled(bool),
    ThemeChanged(ThemeKind),
}

/// What the launcher is to do after a message.
pub enum Action {
    Nothing,
    CloseModal,
    /// Store these settings.
    ConfigChanged(Settings),
    ViewChangelog,
    /// Measure the cache of the executable at this path, then report its size.
    MeasureCache(String),
    /// Clear the cache of the executable at this path, then measure it again.
    ClearCache(String),
    /// Open the cache folder of the executable at this path.
    OpenCache(String),
    /// Open the folder of the launcher's settings.
    OpenConfig,
}

/// Whether an optional path holds `p`.
pub open spec fn holds_path(e: Option<Seq<char>>, p: String) -> bool {
    e == Some(p@)
}

/// The settings after `path` is picked as the executable, with `found` the
/// mods found next to it: the path is set, and the mods found that the load
/// order does not hold yet are added after it, in the order found.
pub open spec fn with_exe(c: SettingsV, path: Seq<char>, found: Seq<(Seq<char>, bool)>) -> SettingsV {
    SettingsV {
        exanima_exe: Some(path),
        load_order: c.load_order + new_mods(c.load_order, found),
        ..c
    }
}

/// What the screen handles without failing: clearing or opening the cache
/// needs the executable, a theme needs the launcher's options.
pub open spec fn handles(s: &SettingsScreen, m: &Message) -> bool {
    match m {
        Message::CacheCleared => s.config@.exanima_exe is Some,
        Message::CacheOpened => s.config@.exanima_exe is Some,
        Message::ThemeChanged(_) => s.config@.launcher is Some,
        _ => true,
    }
}

impl SettingsScreen {
    /// The screen for `config` with `theme` picked, as a dialog or not, and
    /// the message it first handles: measuring the cache.
    pub fn new(config: Settings, theme: ThemeKind, in_dialog: bool) -> (r: (SettingsScreen, Message))
        ensures
            r.0.config@ == config@,
            r.0.exanima_exe@ == match config@.exanima_exe {
                Some(e) => e,
                None => Seq::<char>::empty(),
            },
            r.0.theme == theme,
            r.0.in_dialog == in_dialog,
            r.0.cache_size == 0,
            r.1 is CacheChecked,
    {
        let exanima_exe = match &config.exanima_exe {
            Some(e) => e.clone(),
            None => String::new(),
        };
        (SettingsScreen { cache_size: 0, config, exanima_exe, theme, in_dialog }, Message::CacheChecked)
    }

    /// Handles `message`: updates the screen and says what the launcher is to do.
    pub fn update(&mut self, message: Message) -> (r: Action)
        requires
            handles(old(self), &message),
        ensures
            final(self).in_dialog == old(self).in_dialog,
            !(message is CacheSize) ==> final(self).cache_size == old(self).cache_size,
            !(message is ThemeChanged) ==> final(self).theme == old(self).theme,
            !(message is ExanimaExe) ==> final(self).exanima_exe@ == old(self).exanima_exe@,
            !(message is ConfigRefetched || message is DeveloperToggled || message is ExplainToggled
                || message is ExanimaExe || message is ThemeChanged) ==> final(self).config@ == old(
                self,
            ).config@,
            match message {
                Message::CacheChecked => match old(self).config@.exanima_exe {
                    Some(e) => r matches Action::MeasureCache(p) && p@ == e,
                    None => r is Nothing,
                },
                Message::CacheCleared => r matches Action::ClearCache(p) && holds_path(
                    old(self).config@.exanima_exe,
                    p,
                ),
                Message::CacheSize(n) => final(self).cache_size == n && r is Nothing,
                Message::CacheOpened => r matches Action::OpenCache(p) && holds_path(
                    old(self).config@.exanima_exe,
                    p,
                ),
                Message::Changelog => r is ViewChangelog,
                Message::ConfigOpened => r is OpenConfig,
                Message::ConfigRefetched(c) => final(self).config@ == c@ && r is Nothing,
                Message::Confirm => r is CloseModal,
                Message::DeveloperToggled(d) => match old(self).config@.launcher {
                    Some(l) => {
                        &&& final(self).config@ == (SettingsV {
                            launcher: Some(LauncherV { developer: d, ..l }),
                            ..old(self).config@
                        })
                        &&& r matches Action::ConfigChanged(c) && c@ == final(self).config@
                    },
                    None => final(self).config@ == old(self).config@ && r is Nothing,
                },
                Message::ExplainToggled(x) => match old(self).config@.launcher {
                    Some(l) => {
                        &&& final(self).config@ == (SettingsV {
                            launcher: Some(LauncherV { explain: x, ..l }),
                            ..old(self).config@
                        })
                        &&& r matches Action::ConfigChanged(c) && c@ == final(self).config@
                    },
                    None => final(self).config@ == old(self).config@ && r is Nothing,
                },
                Message::ExanimaExe(path, is_file, found) => {
                    &&& final(self).exanima_exe@ == path@
                    &&& if is_file {
                        &&& final(self).config@ == with_exe(
                            old(self).config@,
                            path@,
                            load_order_view(found@),
                        )
                        &&& r matches Action::ConfigChanged(c) && c@ == final(self).config@
                    } else {
                        final(self).config@ == old(self).config@ && r is Nothing
                    }
                },
                Message::ThemeChanged(t) => {
                    &&& final(self).theme == t
                    &&& final(self).config@ == (SettingsV {
                        launcher: Some(LauncherV { theme: theme_name(t), ..old(self).config@.launcher.unwrap() }),
                        ..old(self).config@
                    })
                    &&& r matches Action::ConfigChanged(c) && c@ == final(self).config@
                },
            },
    {
        match message {
            Message::CacheChecked => match &self.config.exanima_exe {
                Some(e) => Action::MeasureCache(e.clone()),
                None => Action::Nothing,
            },
            Message::CacheCleared => match &self.config.exanima_exe {
                Some(e) => Action::ClearCache(e.clone()),
                None => Action::Nothing,
            },
            Message::CacheSize(n) => {
                self.cache_size = n;
                Action::Nothing
            },
            Message::CacheOpened => match &self.config.exanima_exe {
                Some(e) => Action::OpenCache(e.clone()),
                None => Action::Nothing,
            },
            Message::Changelog => Action::ViewChangelog,
            Message::ConfigOpened => Action::OpenConfig,
            Message::ConfigRefetched(c) => {
                self.config = c;
                Action::Nothing
            },
            Message::Confirm => Action::CloseModal,
            Message::DeveloperToggled(d) => {
                if self.config.set_developer(d) {
                    Action::ConfigChanged(self.config.clone())
                } else {
                    Action::Nothing
                }
            },
            Message::ExplainToggled(x) => {
                if self.config.set_explain(x) {
                    Action::ConfigChanged(self.config.clone())
                } else {
                    Action::Nothing
                }
            },
            Message::ExanimaExe(path, is_file, found) => {
                let exe = path.clone();
                self.exanima_exe = path;
                if !is_file {
                    return Action::Nothing;
                }
                self.config.set_exanima_exe(exe, &found);
                Action::ConfigChanged(self.config.clone())
            },
            Message::ThemeChanged(t) => {
                self.theme = t;
                self.config.set_theme(t);
                Action::ConfigChanged(self.config.clone())
            },
        }
    }

    /// Whether the executable's field is marked as required: in the dialog.
    pub fn shows_required_mark(&self) -> (r: bool)
        ensures
            r == self.in_dialog,
    {
        self.in_dialog
    }

    /// Whether the About and Cache parts are shown: on the screen, not in the
    /// dialog.
    pub fn shows_about_and_cache(&self) -> (r: bool)
        ensures
            r == !self.in_dialog,
    {
        !self.in_dialog
    }

    /// The Confirm button: shown only in the dialog, and enabled once the
    /// executable is known.
    pub fn confirm_button(&self) -> (r: Option<bool>)
        ensures
            r == if self.in_dialog {
                Some(self.config@.exanima_exe is Some)
            } else {
                None::<bool>
            },
    {
        if self.in_dialog {
            Some(self.config.exanima_exe.is_some())
        } else {
            None
        }
    }

    /// Whether Clear Cache is enabled: the cache holds something.
    pub fn can_clear_cache(&self) -> (r: bool)
        ensures
            r == (self.cache_size != 0),
    {
        self.cache_size != 0
    }

    /// Whether Open Config is shown: the developer option is on.
    pub fn shows_open_config(&self) -> (r: bool)
        requires
            self.config@.launcher is Some,
        ensures
            r == self.config@.launcher.unwrap().developer,
    {
        match &self.config.launcher {
            Some(l) => l.developer,
            None => false,
        }
    }

    /// Whether the Explain UI Layout checkbox is shown: the developer option
    /// is on.
    pub fn shows_explain(&self) -> (r: bool)
        requires
            self.config@.launcher is Some,
        ensures
            r == self.config@.launcher.unwrap().developer,
    {
        match &self.config.launcher {
            Some(l) => l.developer,
            None => false,
        }
    }

    /// The version line of the About part.
    pub fn version_line(version: &str) -> (r: String)
        ensures
            r@ == "Version: "@ + version@,
    {
        let mut out = owned("Version: ");
        out.append(version);
        out
    }
}

} // verus!
