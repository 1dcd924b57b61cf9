use emtk::config::{Launcher, Settings};
use emtk::instance::{Action as InstanceAction, Instance, Message as InstanceMessage, Plugin, ZoneUse};
use emtk::mods::{mod_label, mod_version_label, Action as ModsAction, Message as ModsMessage, Mods, Shade};
use emtk::ui::{ColumnKind, State};
use emtk::instance::{instance_title, Row};

fn settings(exe: Option<&str>, rows: &[(&str, bool)]) -> Settings {
    Settings {
        exanima_exe: exe.map(|e| e.to_string()),
        launcher: Some(Launcher::default()),
        load_order: rows.iter().map(|(n, e)| (n.to_string(), *e)).collect(),
    }
}

fn order(s: &Settings) -> Vec<(String, bool)> {
    s.load_order.clone()
}

#[test]
fn mods_rows_follow_load_order() {
    let m = Mods::new(settings(Some("E.exe"), &[("a", true), ("b", false)]));
    assert_eq!(m.rows, vec!["a".to_string(), "b".to_string()]);
    assert!(m.hovered_mod.is_none());
    let none = Mods::new(settings(None, &[("a", true)]));
    assert!(none.rows.is_empty());
}

#[test]
fn mods_drop_moves_to_hovered() {
    let mut m = Mods::new(settings(Some("E.exe"), &[("a", true), ("b", false), ("c", true)]));
    match m.update(ModsMessage::ModDragged(0)) {
        ModsAction::FindZones(z) => assert_eq!(z, vec!["a", "b", "c"]),
        _ => panic!("expected a zone search"),
    }
    assert!(matches!(m.update(ModsMessage::ModZonesFound(vec!["c".to_string()])), ModsAction::Nothing));
    assert_eq!(m.hovered_mod.as_deref(), Some("c"));
    match m.update(ModsMessage::ModDropped(0)) {
        ModsAction::ConfigChanged(c) => assert_eq!(
            order(&c),
            vec![("b".to_string(), false), ("c".to_string(), true), ("a".to_string(), true)]
        ),
        _ => panic!("expected changed settings"),
    }
    assert_eq!(m.rows, vec!["b", "c", "a"]);
    assert!(m.hovered_mod.is_none());
    assert!(matches!(m.update(ModsMessage::ModDropped(1)), ModsAction::Nothing));
    assert_eq!(m.rows, vec!["b", "c", "a"]);
}

#[test]
fn mods_toggle_and_refetch() {
    let mut m = Mods::new(settings(Some("E.exe"), &[("a", true), ("b", false)]));
    match m.update(ModsMessage::ModToggled(1, true)) {
        ModsAction::ConfigChanged(c) => assert_eq!(order(&c)[1], ("b".to_string(), true)),
        _ => panic!("expected changed settings"),
    }
    m.update(ModsMessage::ModZonesFound(vec!["a".to_string()]));
    assert!(matches!(m.update(ModsMessage::ModDragCanceled), ModsAction::Nothing));
    assert!(m.hovered_mod.is_none());
    m.update(ModsMessage::ConfigRefetched(settings(None, &[("z", true)])));
    assert_eq!(m.rows, vec!["a", "b"]);
    assert_eq!(order(&m.config), vec![("z".to_string(), true)]);
    m.update(ModsMessage::ConfigRefetched(settings(Some("E.exe"), &[("z", true)])));
    assert_eq!(m.rows, vec!["z"]);
    assert!(matches!(m.update(ModsMessage::ModZonesFound(Vec::new())), ModsAction::Nothing));
}

fn plugin(priority: u32) -> Plugin {
    Plugin { enabled: true, priority, display_name: None, version: Some("1.0.0".to_string()) }
}

fn sample() -> Instance {
    Instance::with_load_order(
        vec![("x".to_string(), plugin(2)), ("y".to_string(), plugin(0)), ("z".to_string(), plugin(1))],
        100,
    )
}

fn saved(a: InstanceAction) -> Vec<(String, bool, u32)> {
    match a {
        InstanceAction::SaveLoadOrder(lo) => {
            lo.into_iter().map(|(id, p)| (id, p.enabled, p.priority)).collect()
        }
        _ => panic!("expected a load order to store"),
    }
}

#[test]
fn instance_rows_by_priority() {
    let i = sample();
    let rows: Vec<(u64, String, u32)> =
        i.table.rows.iter().map(|r| (r.widget_id, r.plugin_id.clone(), r.plugin.priority)).collect();
    assert_eq!(
        rows,
        vec![(100, "y".to_string(), 0), (101, "z".to_string(), 1), (102, "x".to_string(), 2)]
    );
    assert_eq!(i.table.next_id, 103);
    let ties = Instance::with_load_order(
        vec![("b".to_string(), plugin(1)), ("a".to_string(), plugin(0)), ("c".to_string(), plugin(1))],
        0,
    );
    let ids: Vec<String> = ties.table.rows.iter().map(|r| r.plugin_id.clone()).collect();
    assert_eq!(ids, vec!["a", "b", "c"]);
}

#[test]
fn instance_drag_and_reorder() {
    let mut i = sample();
    assert!(matches!(i.update(InstanceMessage::DraggedRow), InstanceAction::Nothing));
    i.update(InstanceMessage::ClickedRow(0));
    assert_eq!(i.table.focus_row, Some(0));
    match i.update(InstanceMessage::DraggedRow) {
        InstanceAction::FindZones(z, ZoneUse::Over) => assert_eq!(z, vec![101, 102]),
        _ => panic!("expected a zone search"),
    }
    i.update(InstanceMessage::OverRow(vec![102]));
    assert_eq!(i.table.over, Some(102));
    match i.update(InstanceMessage::DroppedRow) {
        InstanceAction::FindZones(z, ZoneUse::Reorder) => assert_eq!(z, vec![101, 102]),
        _ => panic!("expected a zone search"),
    }
    assert_eq!(i.table.over, None);
    let lo = saved(i.update(InstanceMessage::ReorderRows(vec![102])));
    assert_eq!(
        lo,
        vec![("x".to_string(), true, 1), ("y".to_string(), true, 2), ("z".to_string(), true, 0)]
    );
    assert!(matches!(i.update(InstanceMessage::ReorderRows(vec![999])), InstanceAction::Nothing));
    assert!(matches!(i.update(InstanceMessage::ReorderRows(Vec::new())), InstanceAction::Nothing));
}

#[test]
fn instance_toggle_entry() {
    let mut i = sample();
    let lo = saved(i.update(InstanceMessage::EntryToggled(1, false)));
    assert_eq!(
        lo,
        vec![("x".to_string(), true, 2), ("y".to_string(), true, 0), ("z".to_string(), false, 1)]
    );
    assert!(!i.table.rows[1].plugin.enabled);
    assert!(i.load_order[2].1.enabled);
    assert!(matches!(i.update(InstanceMessage::EntryToggled(7, false)), InstanceAction::Nothing));
}

#[test]
fn instance_profile_form() {
    let mut i = sample();
    assert!(!i.can_submit_profile());
    i.update(InstanceMessage::StateChanged(State::ProfileForm));
    i.update(InstanceMessage::ProfileFormInputChanged("modded".to_string()));
    assert!(i.can_submit_profile());
    match i.update(InstanceMessage::ProfileFormSubmitted) {
        InstanceAction::CreateProfile(name) => assert_eq!(name, "modded"),
        _ => panic!("expected a new profile"),
    }
    i.update(InstanceMessage::StateChanged(State::Default));
    assert_eq!(i.state, State::Default);
    assert!(i.profile_form_input.is_empty());
    match i.update(InstanceMessage::ProfileSelected("default".to_string())) {
        InstanceAction::SelectProfile(name) => assert_eq!(name, "default"),
        _ => panic!("expected a selected profile"),
    }
    assert!(matches!(i.update(InstanceMessage::ProfileDeleted), InstanceAction::DeleteProfile));
    assert!(matches!(i.update(InstanceMessage::Launch), InstanceAction::Launch));
    assert!(matches!(i.update(InstanceMessage::Loaded), InstanceAction::Loaded));
    assert!(matches!(i.update(InstanceMessage::Loading), InstanceAction::Loading));
    assert!(matches!(i.update(InstanceMessage::NewPlugin), InstanceAction::Nothing));
    assert!(matches!(i.update(InstanceMessage::SettingsPressed), InstanceAction::Nothing));
}

#[test]
fn row_labels() {
    let named = Row {
        widget_id: 1,
        plugin_id: "corro:example".to_string(),
        plugin: Plugin {
            enabled: true,
            priority: 0,
            display_name: Some("Example".to_string()),
            version: Some("0.2.0".to_string()),
        },
    };
    assert!(named.is_valid());
    assert_eq!(named.name_label(), "Example");
    assert_eq!(named.version_label(), "0.2.0");
    let bare = Row {
        widget_id: 2,
        plugin_id: "corro:bare".to_string(),
        plugin: Plugin { enabled: false, priority: 1, display_name: None, version: None },
    };
    assert!(!bare.is_valid());
    assert_eq!(bare.name_label(), "corro:bare");
    assert_eq!(bare.version_label(), "? ? ?");
    assert_eq!(instance_title(&Some("Main".to_string()), "C:/Games/Exanima"), "Main");
    assert_eq!(instance_title(&None, "C:/Games/Exanima"), "C:/Games/Exanima");
    assert_eq!(ColumnKind::Priority.header(), "Priority");
    assert_eq!(ColumnKind::Name.header(), "Name");
}

#[test]
fn mods_row_labels_and_shades() {
    assert_eq!(mod_label("corro:a", Some("Better AI")), "Better AI");
    assert_eq!(mod_label("corro:a", None), "corro:a");
    assert_eq!(mod_version_label(Some("1.2.0")), "1.2.0");
    assert_eq!(mod_version_label(None), "?");
    let mut m = Mods::new(settings(Some("E.exe"), &[("a", true), ("b", true), ("c", true)]));
    assert_eq!(m.shade(0), Shade::Striped);
    assert_eq!(m.shade(1), Shade::Plain);
    m.update(ModsMessage::ModZonesFound(vec!["c".to_string()]));
    assert_eq!(m.shade(2), Shade::Hovered);
    assert_eq!(m.shade(0), Shade::Striped);
}
