use emtk::config::{contains_id, move_item, Launcher, Settings, ThemeKind};
use emtk::priority::reorder_priorities;

fn settings(rows: &[(&str, bool)]) -> Settings {
    Settings {
        exanima_exe: None,
        launcher: Some(Launcher::default()),
        load_order: rows.iter().map(|(n, e)| (n.to_string(), *e)).collect(),
    }
}

fn ids(s: &Settings) -> Vec<(String, bool)> {
    s.load_order.clone()
}

#[test]
fn launcher_defaults() {
    let l = Launcher::default();
    assert!(!l.developer && !l.explain);
    assert_eq!(l.theme, "light");
}

#[test]
fn new_mods_join_the_load_order() {
    let mut s = settings(&[("a", true), ("b", false)]);
    let found = vec![("b".to_string(), true), ("c".to_string(), false), ("d".to_string(), true)];
    s.set_exanima_exe("C:/Exanima/Exanima.exe".to_string(), &found);
    assert_eq!(s.exanima_exe.as_deref(), Some("C:/Exanima/Exanima.exe"));
    assert_eq!(
        ids(&s),
        vec![
            ("a".to_string(), true),
            ("b".to_string(), false),
            ("c".to_string(), false),
            ("d".to_string(), true)
        ]
    );
    assert!(contains_id(&s.load_order, &"c".to_string()));
    assert!(!contains_id(&s.load_order, &"e".to_string()));
}

#[test]
fn launcher_options() {
    let mut s = settings(&[]);
    assert!(s.set_developer(true));
    assert!(s.set_explain(true));
    s.set_theme(ThemeKind::TokyoNightStorm);
    let l = s.launcher.as_ref().unwrap();
    assert!(l.developer && l.explain);
    assert_eq!(l.theme, "tokyo_night_storm");
    let mut none = Settings { exanima_exe: None, launcher: None, load_order: Vec::new() };
    assert!(!none.set_developer(true));
    assert!(!none.set_explain(false));
    assert!(none.launcher.is_none());
}

#[test]
fn theme_names() {
    assert_eq!(ThemeKind::CatppuccinMacchiato.name(), "catppuccin_macchiato");
    assert_eq!(ThemeKind::from_name("gruvbox_dark"), ThemeKind::GruvboxDark);
    assert_eq!(ThemeKind::from_name("no_such_theme"), ThemeKind::Light);
    assert_eq!(ThemeKind::from_name(ThemeKind::Ferra.name()), ThemeKind::Ferra);
    assert_eq!(ThemeKind::from_name(ThemeKind::Custom.name()), ThemeKind::Light);
}

#[test]
fn load_order_edits() {
    let mut s = settings(&[("a", true), ("b", true), ("c", true)]);
    s.set_enabled(1, false);
    s.move_mod(0, 2);
    assert_eq!(
        ids(&s),
        vec![("b".to_string(), false), ("c".to_string(), true), ("a".to_string(), true)]
    );
    let mut v = vec![1, 2, 3, 4];
    move_item(&mut v, 3, 0);
    assert_eq!(v, vec![4, 1, 2, 3]);
    move_item(&mut v, 0, 3);
    assert_eq!(v, vec![1, 2, 3, 4]);
}

#[test]
fn plugin_priorities() {
    let mut p = vec![0, 1, 2, 3];
    reorder_priorities(&mut p, 0, 2);
    assert_eq!(p, vec![2, 0, 1, 3]);
    let mut q = vec![0, 1, 2, 3];
    reorder_priorities(&mut q, 3, 1);
    assert_eq!(q, vec![0, 2, 3, 1]);
    let mut r = vec![3, 1, 0, 2];
    reorder_priorities(&mut r, 2, 2);
    assert_eq!(r, vec![3, 1, 0, 2]);
}
