use emtk::config::{Launcher, Settings, ThemeKind};
use emtk::progress::Bar;
use emtk::settings_screen::{Action, Message, SettingsScreen};

fn config(exe: Option<&str>, rows: &[(&str, bool)]) -> Settings {
    Settings {
        exanima_exe: exe.map(|e| e.to_string()),
        launcher: Some(Launcher::default()),
        load_order: rows.iter().map(|(n, e)| (n.to_string(), *e)).collect(),
    }
}

#[test]
fn progress_lines() {
    let mut bar = Bar::new();
    assert_eq!(bar.lines(), vec!["Loading...".to_string()]);
    bar.steps = vec!["a.rpk".to_string(), "b.rpk".to_string()];
    bar.title = "a.rpk".to_string();
    assert_eq!(bar.lines(), vec!["a.rpk", "0 / 2 Packages", "a.rpk"]);
    bar.current_step = 2;
    bar.title = "Completed".to_string();
    assert_eq!(bar.lines(), vec!["Completed", "2 / 2 Packages"]);
    bar.steps = (0..12).map(|i| format!("p{}.rpk", i)).collect();
    bar.current_step = 10;
    assert_eq!(bar.lines()[1], "10 / 12 Packages");
    assert_eq!(bar.lines()[2], "p10.rpk");
}

#[test]
fn settings_screen_picks_executable() {
    let (mut s, first) = SettingsScreen::new(config(None, &[("a", true)]), ThemeKind::Light, true);
    assert!(matches!(first, Message::CacheChecked));
    assert_eq!(s.exanima_exe, "");
    assert_eq!(s.confirm_button(), Some(false));
    assert!(s.shows_required_mark() && !s.shows_about_and_cache());
    assert!(matches!(s.update(Message::CacheChecked), Action::Nothing));
    let found = vec![("a".to_string(), false), ("b".to_string(), false)];
    assert!(matches!(
        s.update(Message::ExanimaExe("C:/nope.exe".to_string(), false, found.clone())),
        Action::Nothing
    ));
    assert_eq!(s.exanima_exe, "C:/nope.exe");
    assert!(s.config.exanima_exe.is_none());
    match s.update(Message::ExanimaExe("C:/E/Exanima.exe".to_string(), true, found)) {
        Action::ConfigChanged(c) => {
            assert_eq!(c.exanima_exe.as_deref(), Some("C:/E/Exanima.exe"));
            assert_eq!(c.load_order, vec![("a".to_string(), true), ("b".to_string(), false)]);
        }
        _ => panic!("expected changed settings"),
    }
    assert_eq!(s.confirm_button(), Some(true));
    assert!(matches!(s.update(Message::Confirm), Action::CloseModal));
    match s.update(Message::CacheChecked) {
        Action::MeasureCache(p) => assert_eq!(p, "C:/E/Exanima.exe"),
        _ => panic!("expected a cache measure"),
    }
}

#[test]
fn settings_screen_options() {
    let (mut s, _) = SettingsScreen::new(config(Some("E.exe"), &[]), ThemeKind::Light, false);
    assert_eq!(s.exanima_exe, "E.exe");
    assert_eq!(s.confirm_button(), None);
    assert!(s.shows_about_and_cache());
    assert!(!s.can_clear_cache());
    s.update(Message::CacheSize(2048));
    assert!(s.can_clear_cache());
    assert!(!s.shows_open_config());
    assert!(!s.shows_explain());
    match s.update(Message::DeveloperToggled(true)) {
        Action::ConfigChanged(c) => assert!(c.launcher.unwrap().developer),
        _ => panic!("expected changed settings"),
    }
    assert!(s.shows_open_config());
    assert!(s.shows_explain());
    match s.update(Message::ThemeChanged(ThemeKind::TokyoNightStorm)) {
        Action::ConfigChanged(c) => assert_eq!(c.launcher.unwrap().theme, "tokyo_night_storm"),
        _ => panic!("expected changed settings"),
    }
    assert_eq!(s.theme, ThemeKind::TokyoNightStorm);
    match s.update(Message::CacheCleared) {
        Action::ClearCache(p) => assert_eq!(p, "E.exe"),
        _ => panic!("expected the cache to be cleared"),
    }
    assert!(matches!(s.update(Message::Changelog), Action::ViewChangelog));
    assert!(matches!(s.update(Message::ConfigOpened), Action::OpenConfig));
    assert_eq!(SettingsScreen::version_line("0.1.0"), "Version: 0.1.0");
    s.update(Message::ConfigRefetched(config(None, &[])));
    assert!(s.config.exanima_exe.is_none());
    let (mut bare, _) = SettingsScreen::new(
        Settings { exanima_exe: None, launcher: None, load_order: Vec::new() },
        ThemeKind::Dark,
        false,
    );
    assert!(matches!(bare.update(Message::ExplainToggled(true)), Action::Nothing));
}
