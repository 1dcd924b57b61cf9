use emtk::entry::Entry;
use emtk::merge::{block_named, merge_packages};
use emtk::rpk::Rpk;

fn package(rows: &[(&str, u32, u32)], data: Vec<Vec<u8>>) -> Rpk {
    Rpk {
        entries: rows.iter().map(|(n, o, s)| Entry::new(n.to_string(), *o, *s)).collect(),
        data,
    }
}

fn table(p: &Rpk) -> Vec<(String, u32, u32)> {
    p.entries.iter().map(|e| (e.name.clone(), e.offset, e.size)).collect()
}

/// The game's package: `b` (offset 2, one byte) and `a` (offset 0, two bytes).
fn game() -> Rpk {
    package(&[("b", 2, 1), ("a", 0, 2)], vec![vec![1, 1], vec![2]])
}

#[test]
fn mod_replaces_and_adds_entries() {
    let m = package(&[("c", 3, 1), ("b", 0, 3)], vec![vec![9, 9, 9], vec![7]]);
    let out = merge_packages(&game(), &vec![m]).unwrap();
    assert_eq!(
        table(&out),
        vec![("a".to_string(), 0, 2), ("b".to_string(), 2, 3), ("c".to_string(), 5, 1)]
    );
    assert_eq!(out.data, vec![vec![1, 1], vec![9, 9, 9], vec![7]]);
}

#[test]
fn later_mod_wins() {
    let first = package(&[("a", 0, 1)], vec![vec![5]]);
    let second = package(&[("a", 0, 3)], vec![vec![6, 6, 6]]);
    let out = merge_packages(&game(), &vec![first, second]).unwrap();
    assert_eq!(table(&out), vec![("a".to_string(), 0, 3), ("b".to_string(), 3, 1)]);
    assert_eq!(out.data, vec![vec![6, 6, 6], vec![2]]);
}

#[test]
fn no_mods_lays_out_afresh() {
    let base = package(&[("z", 40, 2), ("y", 10, 1)], vec![vec![4], vec![3, 3]]);
    let out = merge_packages(&base, &Vec::new()).unwrap();
    assert_eq!(table(&out), vec![("y".to_string(), 0, 1), ("z".to_string(), 1, 2)]);
    assert_eq!(out.data, vec![vec![4], vec![3, 3]]);
}

#[test]
fn merged_package_round_trip() {
    let base = package(&[("b", 4, 5), ("a", 0, 4)], vec![vec![1, 1, 1, 1], vec![2, 2, 2, 2, 2]]);
    let m = package(&[("c", 0, 4)], vec![vec![8, 8, 8, 8]]);
    let out = merge_packages(&base, &vec![m]).unwrap();
    let back = Rpk::parse(&out.to_bytes()).ok().unwrap();
    assert_eq!(table(&back), table(&out));
    assert_eq!(back.data, out.data);
}

#[test]
fn explorer_block_by_name() {
    let g = game();
    assert_eq!(block_named(&g, &"a".to_string()), Some(vec![1, 1]));
    assert_eq!(block_named(&g, &"b".to_string()), Some(vec![2]));
    assert_eq!(block_named(&g, &"q".to_string()), None);
}
