//! The overlay's console: a log of lines and an input line that is flushed
//! into the log.

use vstd::prelude::*;

use crate::text::owned;

verus! {

/// A console pane.
pub struct Console {
    log: Vec<String>,
    stdin: String,
    visible: bool,
    focused: bool,
    title: String,
}

/// The value of a [`Console`].
pub struct ConsoleV {
    pub log: Seq<Seq<char>>,
    pub stdin: Seq<char>,
    pub visible: bool,
    pub focused: bool,
    pub title: Seq<char>,
}

impl View for Console {
    type V = ConsoleV;

    closed spec fn view(&self) -> ConsoleV {
        ConsoleV {
            log: self.log@.map_values(|l: String| l@),
            stdin: self.stdin@,
            visible: self.visible,
            focused: self.focused,
            title: self.title@,
        }
    }
}

impl Console {
    /// An empty, hidden console titled `title`.
    pub fn new(title: &str) -> (r: Self)
        ensures
            r@ == (ConsoleV {
                log: Seq::empty(),
                stdin: Seq::empty(),
                visible: false,
                focused: false,
                title: title@,
            }),
    {
        let r = Console {
            log: Vec::new(),
            stdin: String::new(),
            visible: false,
            focused: false,
            title: owned(title),
        };
        assert(r@.log =~= Seq::<Seq<char>>::empty());
        r
    }

    /// Adds `msg` as the last line of the log.
    pub fn log(&mut self, msg: &str)
        ensures
            final(self)@ == (ConsoleV { log: old(self)@.log.push(msg@), ..old(self)@ }),
    {
        let ghost before = self@;
        self.log.push(owned(msg));
        assert(self@.log =~= before.log.push(msg@));
    }

    /// Moves the input line into the log and clears it.
    pub fn write_flush(&mut self)
        ensures
            final(self)@ == (ConsoleV {
                log: old(self)@.log.push(old(self)@.stdin),
                stdin: Seq::empty(),
                ..old(self)@
            }),
    {
        let ghost before = self@;
        self.log.push(self.stdin.clone());
        self.stdin = String::new();
        assert(self@.log =~= before.log.push(before.stdin));
    }

    /// Shows a hidden console, hides a shown one.
    pub fn toggle_visibility(&mut self)
        ensures
            final(self)@ == (ConsoleV { visible: !old(self)@.visible, ..old(self)@ }),
    {
        self.visible = !self.visible;
    }

    /// Replaces the input line with `input`.
    pub fn set_input(&mut self, input: String)
        ensures
            final(self)@ == (ConsoleV { stdin: input@, ..old(self)@ }),
    {
        self.stdin = input;
    }

    /// The console's title.
    pub fn title(&self) -> (r: &str)
        ensures
            r@ == self@.title,
    {
        self.title.as_str()
    }

    /// The input line.
    pub fn input(&self) -> (r: &str)
        ensures
            r@ == self@.stdin,
    {
        self.stdin.as_str()
    }

    /// Whether the console is shown.
    pub fn is_visible(&self) -> (r: bool)
        ensures
            r == self@.visible,
    {
        self.visible
    }

    /// The lines of the log, first to last.
    pub fn lines(&self) -> (r: &Vec<String>)
        ensures
            r@.map_values(|l: String| l@) == self@.log,
    {
        &self.log
    }
}

impl Default for Console {
    fn default() -> (r: Self)
        ensures
            r@ == (ConsoleV {
                log: Seq::empty(),
                stdin: Seq::empty(),
                visible: false,
                focused: false,
                title: "Console"@,
            }),
    {
        Console::new("Console")
    }
}

/// Showing a console twice returns it to how it was.
pub proof fn lemma_toggle_twice(c: ConsoleV)
    ensures
        (ConsoleV { visible: !(ConsoleV { visible: !c.visible, ..c }).visible, ..c }) == c,
{
}

} // verus!
