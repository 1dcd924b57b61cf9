//! The development tasks (`cargo xtask ...`): which one a command line asks
//! for, and the help that lists them.

use vstd::prelude::*;

use crate::text::{owned, push_char, same_text};

verus! {

/// Whether a task builds for distribution or for development.
#[derive(Debug, Clone, Copy, PartialEq, Eq, Structural)]
pub enum BuildMode {
    Release,
    Dev,
}

/// A task that a command line asks for.
pub enum Task {
    PrintHelp,
    Blender(BuildMode),
    BlenderHelp,
    Python(BuildMode),
    PythonHelp,
    Run,
    Wheel(BuildMode),
    WheelHelp,
    /// Build and run the example plugin of this name.
    RunPlugin(String),
}

/// The value of a [`Task`].
pub enum TaskV {
    PrintHelp,
    Blender(BuildMode),
    BlenderHelp,
    Python(BuildMode),
    PythonHelp,
    Run,
    Wheel(BuildMode),
    WheelHelp,
    RunPlugin(Seq<char>),
}

impl View for Task {
    type V = TaskV;

    open spec fn view(&self) -> TaskV {
        match self {
            Task::PrintHelp => TaskV::PrintHelp,
            Task::Blender(m) => TaskV::Blender(*m),
            Task::BlenderHelp => TaskV::BlenderHelp,
            Task::Python(m) => TaskV::Python(*m),
            Task::PythonHelp => TaskV::PythonHelp,
            Task::Run => TaskV::Run,
            Task::Wheel(m) => TaskV::Wheel(*m),
            Task::WheelHelp => TaskV::WheelHelp,
            Task::RunPlugin(n) => TaskV::RunPlugin(n@),
        }
    }
}

/// What a task's flag asks for: `-r` a release build, `-h` its help, anything
/// else or nothing a development build.
pub open spec fn flag_choice(flag: Option<Seq<char>>) -> Option<BuildMode> {
    match flag {
        Some(f) => if f == "-r"@ {
            Some(BuildMode::Release)
        } else if f == "-h"@ {
            None
        } else {
            Some(BuildMode::Dev)
        },
        None => Some(BuildMode::Dev),
    }
}

/// The task that the first two arguments ask for.
pub open spec fn task_of(first: Option<Seq<char>>, second: Option<Seq<char>>) -> TaskV {
    match first {
        None => TaskV::PrintHelp,
        Some(t) => if t == "blender"@ {
            match flag_choice(second) {
                Some(m) => TaskV::Blender(m),
                None => TaskV::BlenderHelp,
            }
        } else if t == "python"@ {
            match flag_choice(second) {
                Some(m) => TaskV::Python(m),
                None => TaskV::PythonHelp,
            }
        } else if t == "run"@ {
            TaskV::Run
        } else if t == "wheel"@ {
            match flag_choice(second) {
                Some(m) => TaskV::Wheel(m),
                None => TaskV::WheelHelp,
            }
        } else {
            TaskV::RunPlugin(t)
        },
    }
}

/// The value of an optional argument.
pub open spec fn arg_view(a: Option<&str>) -> Option<Seq<char>> {
    match a {
        Some(s) => Some(s@),
        None => None,
    }
}

fn flag_choice_exec(flag: Option<&str>) -> (r: Option<BuildMode>)
    ensures
        r == flag_choice(arg_view(flag)),
{
    match flag {
        None => Some(BuildMode::Dev),
        Some(f) => if same_text(f, "-r") {
            Some(BuildMode::Release)
        } else if same_text(f, "-h") {
            None
        } else {
            Some(BuildMode::Dev)
        },
    }
}

/// The task that the command line's first two arguments ask for.
pub fn parse_task(first: Option<&str>, second: Option<&str>) -> (r: Task)
    ensures
        r@ == task_of(arg_view(first), arg_view(second)),
{
    match first {
        None => Task::PrintHelp,
        Some(t) => if same_text(t, "blender") {
            match flag_choice_exec(second) {
                Some(m) => Task::Blender(m),
                None => Task::BlenderHelp,
            }
        } else if same_text(t, "python") {
            match flag_choice_exec(second) {
                Some(m) => Task::Python(m),
                None => Task::PythonHelp,
            }
        } else if same_text(t, "run") {
            Task::Run
        } else if same_text(t, "wheel") {
            match flag_choice_exec(second) {
                Some(m) => Task::Wheel(m),
                None => Task::WheelHelp,
            }
        } else {
            Task::RunPlugin(owned(t))
        },
    }
}

/// Width of the column of task names in the help.
pub const NAME_COLUMN: usize = 19;

/// The help line of the example plugin `name`: its name, padded with spaces
/// to the column of descriptions.
pub open spec fn plugin_help_line(name: Seq<char>, pad: nat) -> Seq<char> {
    name + Seq::new(pad, |i: int| ' ') + "Run only the "@ + name + " plugin\n"@
}

/// The help line of the example plugin `name`, whose length in bytes is at
/// most the width of the name column.
pub fn plugin_help(name: &str) -> (r: String)
    requires
        name.len() <= NAME_COLUMN,
    ensures
        r@ == plugin_help_line(name@, (NAME_COLUMN - name.len()) as nat),
{
    let pad = NAME_COLUMN - name.len();
    let mut out = owned(name);
    let mut i: usize = 0;
    while i < pad
        invariant
            i <= pad,
            out@ == name@ + Seq::new(i as nat, |k: int| ' '),
        decreases pad - i,
    {
        push_char(&mut out, ' ');
        assert(name@ + Seq::new((i + 1) as nat, |k: int| ' ') =~= (name@ + Seq::new(
            i as nat,
            |k: int| ' ',
        )).push(' '));
        i = i + 1;
    }
    out.append("Run only the ");
    out.append(name);
    out.append(" plugin\n");
    out
}

/// The help that lists the tasks, then one line for each example plugin.
pub fn help(examples: &Vec<String>) -> (r: String)
    requires
        forall|i: int| 0 <= i < examples@.len() ==> vstd::utf8::encode_utf8((#[trigger] examples@[i])@).len() <= NAME_COLUMN,
    ensures
        r@ == help_text(examples@, examples@.len() as int),
{
    let mut out = owned(TASKS_HELP);
    let mut i: usize = 0;
    while i < examples.len()
        invariant
            i <= examples.len(),
            forall|k: int| 0 <= k < examples@.len() ==> vstd::utf8::encode_utf8((#[trigger] examples@[k])@).len() <= NAME_COLUMN,
            out@ == help_text(examples@, i as int),
        decreases examples.len() - i,
    {
        let line = plugin_help(examples[i].as_str());
        out.append(line.as_str());
        i = i + 1;
    }
    out
}

/// The lines that describe the tasks.
pub const TASKS_HELP: &'static str = "Tasks:\nblender            Copy emtk-py's blender folder to blender's extension folder (-h for help)\npython             Develop with emtk-py python bindings using maturin (-h for help)\nrun                Run all example plugins\nwheel              Build emtk-py wheel with maturin (-h for help)\n";

/// The help for the first `n` example plugins.
pub open spec fn help_text(examples: Seq<String>, n: int) -> Seq<char>
    decreases n,
{
    if n <= 0 {
        TASKS_HELP@
    } else {
        help_text(examples, n - 1) + plugin_help_line(
            examples[n - 1]@,
            (NAME_COLUMN - vstd::utf8::encode_utf8(examples[n - 1]@).len()) as nat,
        )
    }
}

/// The help of the blender task.
pub const BLENDER_HELP: &'static str = "Blender task flags:\n-r                 Build the blender extension with blender's CLI for distribution\n-h                 Shows this message\n";

/// The help of the python task.
pub const PYTHON_HELP: &'static str = "Python task flags:\n-r                 Develop with the emtk-py python bindings using maturin in release mode\n-h                 Shows this message\n";

/// The help of the wheel task.
pub const WHEEL_HELP: &'static str = "Wheel task flags:\n-r                 Build emtk-py wheel with maturin in release mode\n-h                 Shows this message\n";

/// The manifest of the python bindings that maturin builds.
pub const BINDINGS_MANIFEST: &'static str = "./bindings/python/emtk-py/Cargo.toml";

/// The values of a list of texts.
pub open spec fn texts_view(v: Seq<&str>) -> Seq<Seq<char>> {
    v.map_values(|s: &str| s@)
}

/// The arguments of `maturin` for the python task: develop with uv, in
/// release mode when asked.
pub fn python_args(mode: BuildMode) -> (r: Vec<&'static str>)
    ensures
        texts_view(r@) == match mode {
            BuildMode::Release => seq!["develop"@, "-r"@, "--uv"@, "-m"@, BINDINGS_MANIFEST@],
            BuildMode::Dev => seq!["develop"@, "--uv"@, "-m"@, BINDINGS_MANIFEST@],
        },
{
    let mut r: Vec<&'static str> = Vec::new();
    r.push("develop");
    if mode == BuildMode::Release {
        r.push("-r");
    }
    r.push("--uv");
    r.push("-m");
    r.push(BINDINGS_MANIFEST);
    assert(texts_view(r@) =~= match mode {
        BuildMode::Release => seq!["develop"@, "-r"@, "--uv"@, "-m"@, BINDINGS_MANIFEST@],
        BuildMode::Dev => seq!["develop"@, "--uv"@, "-m"@, BINDINGS_MANIFEST@],
    });
    r
}

/// The arguments of `maturin` for the wheel task: build, in release mode when
/// asked.
pub fn wheel_args(mode: BuildMode) -> (r: Vec<&'static str>)
    ensures
        texts_view(r@) == match mode {
            BuildMode::Release => seq!["build"@, "-r"@, "-m"@, BINDINGS_MANIFEST@],
            BuildMode::Dev => seq!["build"@, "-m"@, BINDINGS_MANIFEST@],
        },
{
    let mut r: Vec<&'static str> = Vec::new();
    r.push("build");
    if mode == BuildMode::Release {
        r.push("-r");
    }
    r.push("-m");
    r.push(BINDINGS_MANIFEST);
    assert(texts_view(r@) =~= match mode {
        BuildMode::Release => seq!["build"@, "-r"@, "-m"@, BINDINGS_MANIFEST@],
        BuildMode::Dev => seq!["build"@, "-m"@, BINDINGS_MANIFEST@],
    });
    r
}

/// `name` with each `-` turned into `_`, as cargo names a crate's library.
pub open spec fn underscored(name: Seq<char>) -> Seq<char> {
    name.map_values(|c: char| if c == '-' { '_' } else { c })
}

/// The library file that cargo builds for the example plugin `name`, and the
/// file it is copied to in the game's mods folder.
pub fn plugin_dll_names(name: &str) -> (r: (String, String))
    ensures
        r.0@ == underscored(name@) + ".dll"@,
        r.1@ == name@ + ".dll"@,
{
    let n = name.unicode_len();
    let mut built = String::new();
    let mut i: usize = 0;
    while i < n
        invariant
            n == name@.len(),
            i <= n,
            built@ == underscored(name@).take(i as int),
        decreases n - i,
    {
        let c = name.get_char(i);
        let d = if c == '-' {
            '_'
        } else {
            c
        };
        let ghost before = built@;
        push_char(&mut built, d);
        assert(built@ =~= underscored(name@).take(i + 1));
        i = i + 1;
    }
    assert(underscored(name@).take(n as int) =~= underscored(name@));
    built.append(".dll");
    let mut installed = owned(name);
    installed.append(".dll");
    (built, installed)
}

/// The line printed, before the help, for a task that names no example plugin.
pub fn invalid_command(name: &str) -> (r: String)
    ensures
        r@ == "\""@ + name@ + "\" is an invalid command\n"@,
{
    let mut out = owned("\"");
    out.append(name);
    out.append("\" is an invalid command\n");
    out
}

} // verus!
