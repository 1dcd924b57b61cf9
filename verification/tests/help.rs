use emtk::tasks::{help, plugin_help, BLENDER_HELP, NAME_COLUMN, PYTHON_HELP, TASKS_HELP, WHEEL_HELP};

#[test]
fn plugin_line_pads_to_the_column() {
    assert_eq!(plugin_help("hello"), "hello              Run only the hello plugin\n");
    let line = plugin_help("abcdefghijklmnopqrs");
    assert_eq!(line, "abcdefghijklmnopqrsRun only the abcdefghijklmnopqrs plugin\n");
    assert_eq!("hello".len() + 14, NAME_COLUMN);
}

#[test]
fn help_lists_tasks_then_plugins() {
    let examples = vec!["alpha".to_string(), "beta".to_string()];
    let text = help(&examples);
    let expected = format!(
        "{}{}{}",
        TASKS_HELP,
        "alpha              Run only the alpha plugin\n",
        "beta               Run only the beta plugin\n"
    );
    assert_eq!(text, expected);
    assert_eq!(help(&Vec::new()), TASKS_HELP);
}

#[test]
fn task_helps_name_their_flags() {
    assert!(TASKS_HELP.starts_with("Tasks:\nblender"));
    assert!(BLENDER_HELP.contains("-r "));
    assert!(PYTHON_HELP.contains("-h "));
    assert!(WHEEL_HELP.starts_with("Wheel task flags:\n"));
}
