//! The launcher's top level: which screen is shown, which dialog is open over
//! it, how far the check for a newer release got, and the settings in use.

use vstd::prelude::*;

use crate::config::{Launcher, Settings, SettingsV};
use crate::ui::ScreenKind;

verus! {

/// A published release of the launcher.
pub struct Release {
    pub tag_name: String,
    pub html_url: String,
    pub body: String,
    /// When it was published, as the launcher prints it.
    pub published_at: String,
}

/// How far the check for the latest release got.
pub enum ReleaseState {
    NotStarted,
    Loading,
    Loaded(Release),
    Error(String),
}

/// What the top level is told.
pub enum Message {
    /// Open this screen as a dialog.
    ModalChanged(ScreenKind),
    /// Close the dialog (it fades out first).
    ModalClosed,
    /// The dialog has faded out.
    ModalCleanup,
    /// Prepare the game's files and start it.
    StartGame,
    /// Show this screen.
    ScreenChanged(ScreenKind),
    /// The check for the latest release moved on.
    GetLatestRelease(ReleaseState),
    /// The preparation dialog was canceled.
    ProgressCanceled,
    /// The preparation finished and the game was started.
    ProgressLaunched,
    /// The settings screen asks to close the dialog it is shown in.
    SettingsCloseModal,
    /// The settings were changed.
    SettingsChanged(Settings),
    /// A link was clicked.
    LinkClicked(String),
}

/// What the launcher is to do after a message.
pub enum Action {
    Nothing,
    /// Fetch the latest release.
    FetchRelease,
    /// Wait for the dialog to fade out, then clean it up.
    CleanupAfterFade,
    /// Start preparing the game's files in the preparation dialog.
    StartLoading,
    /// List the game's packages for the explorer.
    ListPackages,
    /// Build the settings screen from the settings in use (on the screen or
    /// in the dialog, whichever was asked for) and let it measure the cache.
    LoadSettingsScreen,
    /// Tell the launcher that the game started; when the settings screen is
    /// shown, measure the cache again.
    GameStarted(bool),
    /// Close the dialog.
    CloseModal,
    /// Store the settings, and hand them to this screen, the one shown, when
    /// it shows settings (the mods or the settings screen).
    SaveSettings(Settings, Option<ScreenKind>),
    /// Open this address in the browser.
    OpenLink(String),
}

/// The launcher's top level.
pub struct App {
    pub screen: ScreenKind,
    pub modal: Option<ScreenKind>,
    pub latest_release: ReleaseState,
    pub settings: Settings,
}

/// The settings used when none are stored: no executable, the default
/// launcher options, an empty load order.
pub open spec fn default_settings() -> SettingsV {
    SettingsV {
        exanima_exe: None,
        launcher: Some(crate::config::LauncherV { developer: false, explain: false, theme: "light"@ }),
        load_order: Seq::empty(),
    }
}

/// The settings used when none are stored.
pub fn default_settings_value() -> (r: Settings)
    ensures
        r@ == default_settings(),
{
    let r = Settings { exanima_exe: None, launcher: Some(Launcher::default()), load_order: Vec::new() };
    assert(r@.load_order =~= Seq::<(Seq<char>, bool)>::empty());
    r
}

/// Whether the screen can be shown: the explorer needs the game's executable.
pub open spec fn can_show(app: &App, kind: ScreenKind) -> bool {
    kind == ScreenKind::Explorer ==> app.settings.exanima_exe is Some
}

impl App {
    /// The launcher as it starts with `settings` (the stored ones, or the
    /// default when none could be read), and the messages it then handles:
    /// the settings dialog when the executable is unknown, the release check,
    /// and the mods screen.
    pub fn new(settings: Settings) -> (r: (App, Vec<Message>))
        ensures
            r.0.settings@ == settings@,
            r.0.modal is None,
            r.0.latest_release is NotStarted,
            r.1@.len() == if settings@.exanima_exe is None { 3int } else { 2int },
            settings@.exanima_exe is None ==> r.1@[0] matches Message::ModalChanged(ScreenKind::Settings),
            r.1@[r.1@.len() - 2] matches Message::GetLatestRelease(ReleaseState::NotStarted),
            r.1@[r.1@.len() - 1] matches Message::ScreenChanged(ScreenKind::Mods),
    {
        let mut start: Vec<Message> = Vec::new();
        if settings.exanima_exe.is_none() {
            start.push(Message::ModalChanged(ScreenKind::Settings));
        }
        start.push(Message::GetLatestRelease(ReleaseState::NotStarted));
        start.push(Message::ScreenChanged(ScreenKind::Mods));
        (App { screen: ScreenKind::Mods, modal: None, latest_release: ReleaseState::NotStarted, settings }, start)
    }

    /// The screen that settings messages go to: the settings dialog when it
    /// is open, else the settings screen when it is shown.
    pub fn settings_target(&self) -> (r: Option<bool>)
        ensures
            r == if self.modal == Some(ScreenKind::Settings) {
                Some(true)
            } else if self.screen == ScreenKind::Settings {
                Some(false)
            } else {
                None::<bool>
            },
    {
        if self.modal == Some(ScreenKind::Settings) {
            Some(true)
        } else if self.screen == ScreenKind::Settings {
            Some(false)
        } else {
            None
        }
    }

    /// What pressing the sidebar's button of screen `kind` sends: nothing
    /// while that screen is shown, else a change to it.
    pub fn sidebar_press(&self, kind: ScreenKind) -> (r: Option<Message>)
        ensures
            self.screen == kind ==> r is None,
            self.screen != kind ==> (r matches Some(Message::ScreenChanged(k)) && k == kind),
    {
        if self.screen == kind {
            None
        } else {
            Some(Message::ScreenChanged(kind))
        }
    }

    /// What pressing the sidebar's Play button sends: always the start of
    /// the game.
    pub fn play_press(&self) -> (r: Message)
        ensures
            r is StartGame,
    {
        Message::StartGame
    }

    /// Handles `message`: updates the top level and says what the launcher
    /// is to do.
    pub fn update(&mut self, message: Message) -> (r: Action)
        requires
            message matches Message::ScreenChanged(k) ==> can_show(old(self), k),
        ensures
            match message {
                Message::ModalChanged(k) => if k == ScreenKind::Changelog || k == ScreenKind::Settings {
                    &&& final(self).modal == Some(k)
                    &&& final(self).screen == old(self).screen
                    &&& if k == ScreenKind::Settings {
                        r is LoadSettingsScreen
                    } else {
                        r is Nothing
                    }
                } else {
                    &&& final(self).modal == old(self).modal
                    &&& r is Nothing
                },
                Message::ModalClosed => {
                    &&& final(self).modal == old(self).modal
                    &&& r is CleanupAfterFade <==> old(self).modal is Some
                    &&& old(self).modal is None ==> r is Nothing
                },
                Message::ModalCleanup => final(self).modal is None && r is Nothing,
                Message::StartGame => final(self).modal == Some(ScreenKind::Progress) && r is StartLoading,
                Message::ScreenChanged(k) => match k {
                    ScreenKind::Explorer => final(self).screen == k && r is ListPackages,
                    ScreenKind::Mods => final(self).screen == k && r is Nothing,
                    ScreenKind::Settings => final(self).screen == k && r is LoadSettingsScreen,
                    _ => final(self).screen == old(self).screen && r is Nothing,
                },
                Message::GetLatestRelease(s) => match s {
                    ReleaseState::NotStarted => final(self).latest_release is Loading && r is FetchRelease,
                    ReleaseState::Loading => r is Nothing,
                    ReleaseState::Loaded(_) => final(self).latest_release == s && r is Nothing,
                    ReleaseState::Error(_) => final(self).latest_release == s && r is Nothing,
                },
                Message::ProgressCanceled => if old(self).modal == Some(ScreenKind::Progress) {
                    r is CleanupAfterFade
                } else {
                    r is Nothing
                },
                Message::ProgressLaunched => if old(self).modal == Some(ScreenKind::Progress) {
                    r == Action::GameStarted(old(self).screen == ScreenKind::Settings)
                } else {
                    r is Nothing
                },
                Message::SettingsCloseModal => if old(self).modal == Some(ScreenKind::Settings) {
                    r is CloseModal
                } else {
                    r is Nothing
                },
                Message::SettingsChanged(s) => {
                    &&& final(self).settings@ == s@
                    &&& r matches Action::SaveSettings(t, to) && t@ == s@ && to == (if old(self).screen
                        == ScreenKind::Mods || old(self).screen == ScreenKind::Settings {
                        Some(old(self).screen)
                    } else {
                        None::<ScreenKind>
                    })
                },
                Message::LinkClicked(url) => r == Action::OpenLink(url),
            },
            !(message is ScreenChanged) ==> final(self).screen == old(self).screen,
            !(message is SettingsChanged) ==> final(self).settings == old(self).settings,
            !(message is GetLatestRelease) ==> final(self).latest_release == old(self).latest_release,
            !(message is ModalChanged || message is ModalCleanup || message is StartGame)
                ==> final(self).modal == old(self).modal,
    {
        match message {
            Message::ModalChanged(k) => match k {
                ScreenKind::Changelog => {
                    self.modal = Some(k);
                    Action::Nothing
                },
                ScreenKind::Settings => {
                    self.modal = Some(k);
                    Action::LoadSettingsScreen
                },
                _ => Action::Nothing,
            },
            Message::ModalClosed => match self.modal {
                Some(_) => Action::CleanupAfterFade,
                None => Action::Nothing,
            },
            Message::ModalCleanup => {
                self.modal = None;
                Action::Nothing
            },
            Message::StartGame => {
                self.modal = Some(ScreenKind::Progress);
                Action::StartLoading
            },
            Message::ScreenChanged(k) => match k {
                ScreenKind::Explorer => {
                    self.screen = k;
                    Action::ListPackages
                },
                ScreenKind::Mods => {
                    self.screen = k;
                    Action::Nothing
                },
                ScreenKind::Settings => {
                    self.screen = k;
                    Action::LoadSettingsScreen
                },
                _ => Action::Nothing,
            },
            Message::GetLatestRelease(s) => match s {
                ReleaseState::NotStarted => {
                    self.latest_release = ReleaseState::Loading;
                    Action::FetchRelease
                },
                ReleaseState::Loading => Action::Nothing,
                other => {
                    self.latest_release = other;
                    Action::Nothing
                },
            },
            Message::ProgressCanceled => if self.modal == Some(ScreenKind::Progress) {
                Action::CleanupAfterFade
            } else {
                Action::Nothing
            },
            Message::ProgressLaunched => if self.modal == Some(ScreenKind::Progress) {
                Action::GameStarted(self.screen == ScreenKind::Settings)
            } else {
                Action::Nothing
            },
            Message::SettingsCloseModal => if self.modal == Some(ScreenKind::Settings) {
                Action::CloseModal
            } else {
                Action::Nothing
            },
            Message::SettingsChanged(s) => {
                let stored = s.clone();
                self.settings = s;
                let to = if self.screen == ScreenKind::Mods || self.screen == ScreenKind::Settings {
                    Some(self.screen)
                } else {
                    None
                };
                Action::SaveSettings(stored, to)
            },
            Message::LinkClicked(url) => Action::OpenLink(url),
        }
    }
}

} // verus!
