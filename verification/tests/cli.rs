use emtk::tasks::{parse_task, BuildMode, Task};

#[test]
fn cli() {}

#[test]
fn no_argument_prints_help() {
    assert!(matches!(parse_task(None, None), Task::PrintHelp));
}

#[test]
fn task_flags_choose_the_build() {
    assert!(matches!(parse_task(Some("blender"), None), Task::Blender(BuildMode::Dev)));
    assert!(matches!(parse_task(Some("blender"), Some("-r")), Task::Blender(BuildMode::Release)));
    assert!(matches!(parse_task(Some("blender"), Some("-h")), Task::BlenderHelp));
    assert!(matches!(parse_task(Some("python"), Some("-x")), Task::Python(BuildMode::Dev)));
    assert!(matches!(parse_task(Some("python"), Some("-r")), Task::Python(BuildMode::Release)));
    assert!(matches!(parse_task(Some("python"), Some("-h")), Task::PythonHelp));
    assert!(matches!(parse_task(Some("wheel"), Some("-r")), Task::Wheel(BuildMode::Release)));
    assert!(matches!(parse_task(Some("wheel"), Some("-h")), Task::WheelHelp));
    assert!(matches!(parse_task(Some("wheel"), None), Task::Wheel(BuildMode::Dev)));
    assert!(matches!(parse_task(Some("run"), Some("-r")), Task::Run));
}

#[test]
fn other_task_runs_a_plugin() {
    match parse_task(Some("example-plugin"), None) {
        Task::RunPlugin(name) => assert_eq!(name, "example-plugin"),
        _ => panic!("expected a plugin to run"),
    }
}
