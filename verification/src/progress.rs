//! Progress of preparing the game's packages before a launch.

use vstd::prelude::*;

verus! {

/// The progress bar: the packages to prepare, how many are done, and what is
/// being worked on.
pub struct Bar {
    pub current_step: usize,
    pub steps: Vec<String>,
    pub title: String,
}

/// A report from the preparation.
pub enum Event {
    ProgressCompleted(Bar),
    ProgressUpdated(Bar),
}

impl Bar {
    /// An empty bar.
    pub fn new() -> (r: Self)
        ensures
            r.current_step == 0,
            r.steps@.len() == 0,
            r.title@.len() == 0,
    {
        Bar { current_step: 0, steps: Vec::new(), title: String::new() }
    }

    /// Whether every package is done (and there was at least one).
    pub fn is_done(&self) -> (r: bool)
        ensures
            r == (self.current_step == self.steps@.len() && self.current_step != 0),
    {
        self.current_step == self.steps.len() && self.current_step != 0
    }

    /// The label of the dialog's button: "Close" once every package is done,
    /// "Cancel" before.
    pub fn button_label(&self) -> (r: &'static str)
        ensures
            r@ == if self.current_step == self.steps@.len() && self.current_step != 0 {
                "Close"@
            } else {
                "Cancel"@
            },
    {
        if self.is_done() {
            "Close"
        } else {
            "Cancel"
        }
    }
}

impl Event {
    /// Whether the report says that the preparation is finished.
    pub fn is_completed(&self) -> (r: bool)
        ensures
            r == (self is ProgressCompleted),
    {
        match self {
            Event::ProgressCompleted(_) => true,
            Event::ProgressUpdated(_) => false,
        }
    }
}

/// What the preparation dialog is told.
pub enum Message {
    /// The user canceled the preparation.
    Canceled,
    /// The preparation reported progress.
    Event(Event),
}

/// What the launcher is to do after a message.
pub enum Action {
    Canceled,
    ExanimaLaunched,
    Nothing,
}

/// The preparation dialog: the bar it shows.
pub struct Progress {
    pub bar: Bar,
}

impl Progress {
    /// Handles `message`: shows the bar reported, and says when the
    /// preparation was canceled or is finished.
    pub fn update(&mut self, message: Message) -> (r: Action)
        ensures
            match message {
                Message::Canceled => r is Canceled && final(self).bar == old(self).bar,
                Message::Event(Event::ProgressCompleted(b)) => r is ExanimaLaunched && final(self).bar == b,
                Message::Event(Event::ProgressUpdated(b)) => r is Nothing && final(self).bar == b,
            },
    {
        match message {
            Message::Canceled => Action::Canceled,
            Message::Event(Event::ProgressCompleted(bar)) => {
                self.bar = bar;
                Action::ExanimaLaunched
            },
            Message::Event(Event::ProgressUpdated(bar)) => {
                self.bar = bar;
                Action::Nothing
            },
        }
    }
}

/// The digit character of `d`.
pub open spec fn digit(d: nat) -> char {
    (48 + d) as char
}

/// The decimal numeral of `n`.
pub open spec fn decimal(n: nat) -> Seq<char>
    decreases n,
{
    if n < 10 {
        seq![digit(n)]
    } else {
        decimal(n / 10).push(digit(n % 10))
    }
}

/// Appends the decimal numeral of `n`.
fn push_decimal(out: &mut String, n: usize)
    ensures
        final(out)@ == old(out)@ + decimal(n as nat),
    decreases n,
{
    if n >= 10 {
        push_decimal(out, n / 10);
    }
    let d = (n % 10) as u8;
    let c = (48u8 + d) as char;
    assert(c == digit((n % 10) as nat));
    crate::text::push_char(out, c);
    assert(old(out)@ + decimal(n as nat) =~= if n >= 10 {
        old(out)@ + decimal((n / 10) as nat)
    } else {
        old(out)@
    }.push(c));
}

/// The lines that the preparation dialog shows for bar `b`: `Loading...`
/// before the packages are known; else the package being prepared, the count
/// `c / n Packages`, then the name of the current step while there is one.
pub open spec fn bar_lines(b: Seq<Seq<char>>, current: nat, title: Seq<char>) -> Seq<Seq<char>> {
    if b.len() == 0 {
        seq!["Loading..."@]
    } else {
        let count = decimal(current) + " / "@ + decimal(b.len()) + " Packages"@;
        if current < b.len() {
            seq![title, count, b[current as int]]
        } else {
            seq![title, count]
        }
    }
}

impl Bar {
    /// The lines of text that the preparation dialog shows for this bar.
    pub fn lines(&self) -> (r: Vec<String>)
        ensures
            r@.map_values(|l: String| l@) == bar_lines(
                self.steps@.map_values(|l: String| l@),
                self.current_step as nat,
                self.title@,
            ),
    {
        let mut r: Vec<String> = Vec::new();
        if self.steps.len() == 0 {
            r.push(crate::text::owned("Loading..."));
            assert(r@.map_values(|l: String| l@) =~= seq!["Loading..."@]);
            return r;
        }
        let mut count = String::new();
        push_decimal(&mut count, self.current_step);
        count.append(" / ");
        push_decimal(&mut count, self.steps.len());
        count.append(" Packages");
        r.push(self.title.clone());
        r.push(count);
        if self.current_step < self.steps.len() {
            r.push(self.steps[self.current_step].clone());
        }
        assert(r@.map_values(|l: String| l@) =~= bar_lines(
            self.steps@.map_values(|l: String| l@),
            self.current_step as nat,
            self.title@,
        ));
        r
    }
}

} // verus!
