use emtk::config::Settings;
use emtk::console::Console;
use emtk::progress::{Bar, Event};
use emtk::ui::{
    overlay_event, Home, InstanceHistory, Logs, Menu, Metadata, OverlayEvent, OverlayOutcome, Page,
    RightPanel,
};

#[test]
fn console_log_and_input() {
    let mut c = Console::new("Console");
    assert_eq!(c.title(), "Console");
    assert!(!c.is_visible());
    c.log("loaded");
    c.set_input("help".to_string());
    assert_eq!(c.input(), "help");
    c.write_flush();
    assert_eq!(c.input(), "");
    assert_eq!(c.lines(), &vec!["loaded".to_string(), "help".to_string()]);
    c.write_flush();
    assert_eq!(c.lines().len(), 3);
    assert_eq!(c.lines()[2], "");
}

#[test]
fn console_toggle_twice() {
    let mut c = Console::default();
    assert_eq!(c.title(), "Console");
    c.toggle_visibility();
    assert!(c.is_visible());
    c.toggle_visibility();
    assert!(!c.is_visible());
}

#[test]
fn menu_pages() {
    let mut m = Menu::new();
    assert_eq!(m.current_page, Page::Home);
    m.update(Page::Settings);
    assert_eq!(m.current_page, Page::Settings);
    assert_eq!(Page::Home.as_str(), "Home");
    assert_eq!(Page::Settings.as_str(), "Settings");
}

#[test]
fn tab_titles() {
    assert_eq!(Logs {}.title(), "Logs");
    assert_eq!(InstanceHistory::new().title(), "Instance History");
    assert_eq!(RightPanel::new(), RightPanel {});
}

#[test]
fn history_remove_instance() {
    let mut h = InstanceHistory::new();
    assert!(h.hover.is_none() && h.inner.is_empty());
    h.refresh(vec![
        ("C:/a".to_string(), Some("A".to_string())),
        ("C:/b".to_string(), None),
        ("C:/c".to_string(), Some("C".to_string())),
    ]);
    h.set_hover(Some(1));
    let rest = h.remove_instance(1);
    assert_eq!(rest, vec!["C:/a".to_string(), "C:/c".to_string()]);
    assert_eq!(h.inner.len(), 2);
    assert_eq!(h.inner[1].1.as_deref(), Some("C"));
    assert_eq!(h.hover, Some(1));
}

#[test]
fn explorer_metadata_and_home() {
    let m = Metadata::new("x.rpk".to_string(), "/tmp/x.rpk".to_string(), 42);
    assert_eq!((m.name.as_str(), m.path.as_str(), m.size), ("x.rpk", "/tmp/x.rpk", 42));
    let mut home = Home { settings: Settings { exanima_exe: None, launcher: None, load_order: Vec::new() } };
    home.load_settings(Settings {
        exanima_exe: Some("e".to_string()),
        launcher: None,
        load_order: vec![("m".to_string(), true)],
    });
    assert_eq!(home.settings.exanima_exe.as_deref(), Some("e"));
    assert_eq!(home.settings.load_order.len(), 1);
}

#[test]
fn progress_bar_button() {
    let mut bar = Bar::new();
    assert!(!bar.is_done());
    assert_eq!(bar.button_label(), "Cancel");
    bar.steps = vec!["a.rpk".to_string(), "b.rpk".to_string()];
    bar.current_step = 1;
    assert_eq!(bar.button_label(), "Cancel");
    bar.current_step = 2;
    assert!(bar.is_done());
    assert_eq!(bar.button_label(), "Close");
    assert!(Event::ProgressCompleted(Bar::new()).is_completed());
    assert!(!Event::ProgressUpdated(bar).is_completed());
}

#[test]
fn dialog_closes_on_escape_or_outside_click() {
    assert_eq!(overlay_event(OverlayEvent::EscapePressed), OverlayOutcome::Close);
    assert_eq!(overlay_event(OverlayEvent::LeftPressed(false)), OverlayOutcome::Close);
    assert_eq!(overlay_event(OverlayEvent::LeftPressed(true)), OverlayOutcome::PassOn);
    assert_eq!(overlay_event(OverlayEvent::Other), OverlayOutcome::PassOn);
}
