//! The launcher's screens, pages, icons and history of game instances: the
//! state behind its views.

use vstd::prelude::*;

use crate::config::Settings;
use crate::text::owned;

verus! {

/// A page of the menu.
#[derive(Debug, Clone, Copy, PartialEq, Eq, Structural)]
pub enum Page {
    Home,
    Settings,
}

impl Page {
    /// The page's label.
    pub fn as_str(&self) -> (r: &'static str)
        ensures
            r@ == match *self {
                Page::Home => "Home"@,
                Page::Settings => "Settings"@,
            },
    {
        match self {
            Page::Home => "Home",
            Page::Settings => "Settings",
        }
    }
}

/// The menu: which page is shown.
#[derive(Debug, Clone, Copy, PartialEq, Eq, Structural)]
pub struct Menu {
    pub current_page: Page,
}

impl Menu {
    /// A menu on the home page.
    pub fn new() -> (r: Self)
        ensures
            r.current_page == Page::Home,
    {
        Menu { current_page: Page::Home }
    }

    /// Changes to `page`.
    pub fn update(&mut self, page: Page)
        ensures
            final(self).current_page == page,
    {
        self.current_page = page;
    }
}

/// The launcher's icons.
#[derive(Debug, Clone, Copy, PartialEq, Eq, Structural)]
pub enum Icon {
    ArrowLeft,
    Folder,
    Layers,
    Menu,
    Play,
    Settings,
    SquareArrowOutUpRight,
}

/// The dialogs that the launcher shows over its screen.
#[derive(Debug, Clone, Copy, PartialEq, Eq, Structural)]
pub enum ModalKind {
    Launching,
    Test,
}

/// The launcher's screens.
#[derive(Debug, Clone, Copy, PartialEq, Eq, Structural)]
pub enum ScreenKind {
    Changelog,
    Explorer,
    Mods,
    Progress,
    Settings,
}

/// The home screen: the settings it shows.
pub struct Home {
    pub settings: Settings,
}

impl Home {
    /// Replaces the settings shown.
    pub fn load_settings(&mut self, settings: Settings)
        ensures
            final(self).settings == settings,
    {
        self.settings = settings;
    }
}

/// The right-hand panel.
#[derive(Debug, Clone, Copy, PartialEq, Eq, Structural)]
pub struct RightPanel {}

impl RightPanel {
    pub fn new() -> (r: Self)
        ensures
            r == (RightPanel {}),
    {
        RightPanel {}
    }
}

/// What the explorer shows of an opened package.
pub struct Metadata {
    pub name: String,
    pub path: String,
    pub size: u64,
}

impl Metadata {
    pub fn new(name: String, path: String, size: u64) -> (r: Self)
        ensures
            r.name@ == name@,
            r.path@ == path@,
            r.size == size,
    {
        Metadata { name, path, size }
    }
}

/// Whether an instance shows its profile form.
#[derive(Debug, Clone, Copy, PartialEq, Eq, Structural)]
pub enum State {
    Default,
    ProfileForm,
}

/// The columns of a load-order table.
#[derive(Debug, Clone, Copy, PartialEq, Eq, Structural)]
pub enum ColumnKind {
    Name,
    Version,
    Priority,
}

impl ColumnKind {
    /// The column's header.
    pub fn header(&self) -> (r: &'static str)
        ensures
            r@ == match *self {
                ColumnKind::Name => "Name"@,
                ColumnKind::Version => "Version"@,
                ColumnKind::Priority => "Priority"@,
            },
    {
        match self {
            ColumnKind::Name => "Name",
            ColumnKind::Version => "Version",
            ColumnKind::Priority => "Priority",
        }
    }
}

/// The logs tab.
#[derive(Debug, Clone, Copy, PartialEq, Eq, Structural)]
pub struct Logs {}

impl Logs {
    /// The tab's title.
    pub fn title(&self) -> (r: String)
        ensures
            r@ == "Logs"@,
    {
        owned("Logs")
    }
}

/// The history of opened game instances: each instance's directory with its
/// name, if it has one, and the row under the pointer.
pub struct InstanceHistory {
    pub hover: Option<usize>,
    pub inner: Vec<(String, Option<String>)>,
}

/// The directories of a history, in order.
pub open spec fn history_paths(h: Seq<(String, Option<String>)>) -> Seq<Seq<char>> {
    h.map_values(|e: (String, Option<String>)| e.0@)
}

impl InstanceHistory {
    /// An empty history.
    pub fn new() -> (r: Self)
        ensures
            r.hover is None,
            r.inner@.len() == 0,
    {
        InstanceHistory { hover: None, inner: Vec::new() }
    }

    /// The tab's title.
    pub fn title(&self) -> (r: String)
        ensures
            r@ == "Instance History"@,
    {
        owned("Instance History")
    }

    /// Replaces the history.
    pub fn refresh(&mut self, history: Vec<(String, Option<String>)>)
        ensures
            final(self).inner == history,
            final(self).hover == old(self).hover,
    {
        self.inner = history;
    }

    /// Sets the row under the pointer.
    pub fn set_hover(&mut self, hover: Option<usize>)
        ensures
            final(self).hover == hover,
            final(self).inner == old(self).inner,
    {
        self.hover = hover;
    }

    /// Removes the instance at `index` and gives the directories that remain,
    /// to be stored as the new history.
    pub fn remove_instance(&mut self, index: usize) -> (r: Vec<String>)
        requires
            index < old(self).inner@.len(),
        ensures
            final(self).inner@ == old(self).inner@.remove(index as int),
            final(self).hover == old(self).hover,
            r@.map_values(|p: String| p@) == history_paths(final(self).inner@),
    {
        self.inner.remove(index);
        let mut paths: Vec<String> = Vec::new();
        let mut i: usize = 0;
        while i < self.inner.len()
            invariant
                i <= self.inner@.len(),
                paths@.map_values(|p: String| p@) == history_paths(self.inner@).take(i as int),
            decreases self.inner.len() - i,
        {
            let ghost before = paths@.map_values(|p: String| p@);
            let p = self.inner[i].0.clone();
            paths.push(p);
            assert(paths@.map_values(|p: String| p@) =~= before.push(self.inner@[i as int].0@));
            assert(history_paths(self.inner@)[i as int] == self.inner@[i as int].0@);
            assert(paths@.map_values(|p: String| p@) =~= history_paths(self.inner@).take(i + 1));
            i = i + 1;
        }
        assert(history_paths(self.inner@).take(self.inner.len() as int) =~= history_paths(
            self.inner@,
        ));
        paths
    }
}

/// What reaches a dialog's overlay.
#[derive(Debug, Clone, Copy, PartialEq, Eq, Structural)]
pub enum OverlayEvent {
    /// The Escape key was pressed.
    EscapePressed,
    /// The left mouse button was pressed, over the dialog's content or not.
    LeftPressed(bool),
    /// Anything else.
    Other,
}

/// What the overlay does with an event.
#[derive(Debug, Clone, Copy, PartialEq, Eq, Structural)]
pub enum OverlayOutcome {
    /// The dialog is closed and the event goes no further.
    Close,
    /// The event goes on to the dialog's content.
    PassOn,
}

/// A dialog closes on Escape and on a left click outside its content; every
/// other event goes on to the content.
pub fn overlay_event(e: OverlayEvent) -> (r: OverlayOutcome)
    ensures
        r == match e {
            OverlayEvent::EscapePressed => OverlayOutcome::Close,
            OverlayEvent::LeftPressed(over) => if over {
                OverlayOutcome::PassOn
            } else {
                OverlayOutcome::Close
            },
            OverlayEvent::Other => OverlayOutcome::PassOn,
        },
{
    match e {
        OverlayEvent::EscapePressed => OverlayOutcome::Close,
        OverlayEvent::LeftPressed(over) => if over {
            OverlayOutcome::PassOn
        } else {
            OverlayOutcome::Close
        },
        OverlayEvent::Other => OverlayOutcome::PassOn,
    }
}

} // verus!
