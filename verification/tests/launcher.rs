use emtk::config::{active_mods, Launcher, Settings};
use emtk::nav::{default_settings_value, Action, App, Message, Release, ReleaseState};
use emtk::progress::{Action as ProgressAction, Bar, Event, Message as ProgressMessage, Progress};
use emtk::tasks::{invalid_command, plugin_dll_names, python_args, wheel_args, BuildMode, BINDINGS_MANIFEST};
use emtk::ui::ScreenKind;

fn known_exe() -> Settings {
    Settings {
        exanima_exe: Some("C:/Exanima/Exanima.exe".to_string()),
        launcher: Some(Launcher::default()),
        load_order: Vec::new(),
    }
}

#[test]
fn startup_messages() {
    let (app, start) = App::new(default_settings_value());
    assert_eq!(start.len(), 3);
    assert!(matches!(start[0], Message::ModalChanged(ScreenKind::Settings)));
    assert!(matches!(start[1], Message::GetLatestRelease(ReleaseState::NotStarted)));
    assert!(matches!(start[2], Message::ScreenChanged(ScreenKind::Mods)));
    assert!(app.modal.is_none());
    let (_, start) = App::new(known_exe());
    assert_eq!(start.len(), 2);
    assert!(matches!(start[0], Message::GetLatestRelease(ReleaseState::NotStarted)));
}

#[test]
fn dialogs_open_and_close() {
    let (mut app, _) = App::new(known_exe());
    assert!(matches!(app.update(Message::ModalClosed), Action::Nothing));
    assert!(matches!(app.update(Message::ModalChanged(ScreenKind::Settings)), Action::LoadSettingsScreen));
    assert_eq!(app.modal, Some(ScreenKind::Settings));
    assert_eq!(app.settings_target(), Some(true));
    assert!(matches!(app.update(Message::SettingsCloseModal), Action::CloseModal));
    assert!(matches!(app.update(Message::ModalClosed), Action::CleanupAfterFade));
    assert_eq!(app.modal, Some(ScreenKind::Settings));
    app.update(Message::ModalCleanup);
    assert!(app.modal.is_none());
    assert!(matches!(app.update(Message::SettingsCloseModal), Action::Nothing));
    app.update(Message::ModalChanged(ScreenKind::Explorer));
    assert!(app.modal.is_none());
}

#[test]
fn screens_and_game() {
    let (mut app, _) = App::new(known_exe());
    assert!(matches!(app.update(Message::ScreenChanged(ScreenKind::Explorer)), Action::ListPackages));
    assert_eq!(app.screen, ScreenKind::Explorer);
    assert!(matches!(app.update(Message::ScreenChanged(ScreenKind::Settings)), Action::LoadSettingsScreen));
    assert_eq!(app.settings_target(), Some(false));
    assert!(matches!(app.update(Message::ScreenChanged(ScreenKind::Progress)), Action::Nothing));
    assert_eq!(app.screen, ScreenKind::Settings);
    assert!(matches!(app.update(Message::ProgressLaunched), Action::Nothing));
    assert!(matches!(app.update(Message::StartGame), Action::StartLoading));
    assert_eq!(app.modal, Some(ScreenKind::Progress));
    assert!(matches!(app.update(Message::ProgressLaunched), Action::GameStarted(true)));
    assert!(matches!(app.update(Message::ProgressCanceled), Action::CleanupAfterFade));
    match app.update(Message::LinkClicked("https://example.org".to_string())) {
        Action::OpenLink(url) => assert_eq!(url, "https://example.org"),
        _ => panic!("expected a link to open"),
    }
}

#[test]
fn release_check_states() {
    let (mut app, _) = App::new(known_exe());
    assert!(matches!(app.update(Message::GetLatestRelease(ReleaseState::NotStarted)), Action::FetchRelease));
    assert!(matches!(app.latest_release, ReleaseState::Loading));
    let release = Release {
        tag_name: "v1.0.0".to_string(),
        html_url: "u".to_string(),
        body: "b".to_string(),
        published_at: "p".to_string(),
    };
    app.update(Message::GetLatestRelease(ReleaseState::Loaded(release)));
    assert!(matches!(app.latest_release, ReleaseState::Loaded(ref r) if r.tag_name == "v1.0.0"));
    app.update(Message::GetLatestRelease(ReleaseState::Error("offline".to_string())));
    assert!(matches!(app.latest_release, ReleaseState::Error(ref e) if e == "offline"));
    match app.update(Message::SettingsChanged(default_settings_value())) {
        Action::SaveSettings(s, to) => {
            assert!(s.exanima_exe.is_none());
            assert_eq!(to, Some(ScreenKind::Mods));
        }
        _ => panic!("expected the settings to be stored"),
    }
    assert!(app.settings.exanima_exe.is_none());
}

#[test]
fn mods_laid_over_the_game() {
    let lo = vec![
        ("a".to_string(), true),
        ("b".to_string(), false),
        ("c".to_string(), true),
        ("d".to_string(), true),
    ];
    assert_eq!(active_mods(&lo, &Vec::new()), vec!["a", "c", "d"]);
    let missing = vec![("c".to_string(), true), ("d".to_string(), false)];
    assert_eq!(active_mods(&lo, &missing), vec!["a", "d"]);
}

#[test]
fn preparation_dialog() {
    let mut p = Progress { bar: Bar::new() };
    let mut bar = Bar::new();
    bar.steps = vec!["a.rpk".to_string()];
    bar.title = "entry".to_string();
    assert!(matches!(p.update(ProgressMessage::Event(Event::ProgressUpdated(bar))), ProgressAction::Nothing));
    assert_eq!(p.bar.title, "entry");
    let mut done = Bar::new();
    done.steps = vec!["a.rpk".to_string()];
    done.current_step = 1;
    done.title = "Completed".to_string();
    assert!(matches!(
        p.update(ProgressMessage::Event(Event::ProgressCompleted(done))),
        ProgressAction::ExanimaLaunched
    ));
    assert!(p.bar.is_done());
    assert!(matches!(p.update(ProgressMessage::Canceled), ProgressAction::Canceled));
    assert_eq!(p.bar.title, "Completed");
}

#[test]
fn maturin_arguments() {
    assert_eq!(python_args(BuildMode::Release), vec!["develop", "-r", "--uv", "-m", BINDINGS_MANIFEST]);
    assert_eq!(python_args(BuildMode::Dev), vec!["develop", "--uv", "-m", BINDINGS_MANIFEST]);
    assert_eq!(wheel_args(BuildMode::Release), vec!["build", "-r", "-m", BINDINGS_MANIFEST]);
    assert_eq!(wheel_args(BuildMode::Dev), vec!["build", "-m", BINDINGS_MANIFEST]);
}

#[test]
fn plugin_files() {
    assert_eq!(
        plugin_dll_names("my-first-plugin"),
        ("my_first_plugin.dll".to_string(), "my-first-plugin.dll".to_string())
    );
    assert_eq!(invalid_command("nope"), "\"nope\" is an invalid command\n");
}

#[test]
fn new_settings_reach_the_screen() {
    let (mut app, _) = App::new(known_exe());
    app.update(Message::ScreenChanged(ScreenKind::Explorer));
    match app.update(Message::SettingsChanged(known_exe())) {
        Action::SaveSettings(_, to) => assert_eq!(to, None),
        _ => panic!("expected the settings to be stored"),
    }
    app.update(Message::ScreenChanged(ScreenKind::Settings));
    match app.update(Message::SettingsChanged(known_exe())) {
        Action::SaveSettings(_, to) => assert_eq!(to, Some(ScreenKind::Settings)),
        _ => panic!("expected the settings to be stored"),
    }
}

#[test]
fn sidebar_buttons() {
    let (mut app, _) = App::new(known_exe());
    app.update(Message::ScreenChanged(ScreenKind::Mods));
    assert!(app.sidebar_press(ScreenKind::Mods).is_none());
    assert!(matches!(app.sidebar_press(ScreenKind::Explorer), Some(Message::ScreenChanged(ScreenKind::Explorer))));
    assert!(matches!(app.sidebar_press(ScreenKind::Settings), Some(Message::ScreenChanged(ScreenKind::Settings))));
    assert!(matches!(app.play_press(), Message::StartGame));
    assert!(matches!(app.update(Message::ModalChanged(ScreenKind::Changelog)), Action::Nothing));
    assert_eq!(app.modal, Some(ScreenKind::Changelog));
}
