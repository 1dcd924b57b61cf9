use emtk::entry::Entry;
use emtk::explorer::{search_results, Explorer};
use emtk::release::{compared_version, tag_version, update_available, update_message};
use emtk::rpk::Rpk;

fn names(v: &[Entry]) -> Vec<String> {
    v.iter().map(|e| e.name.clone()).collect()
}

fn package() -> Rpk {
    Rpk {
        entries: vec![
            Entry::new("alpha.rfi".to_string(), 0, 1),
            Entry::new("beta.rfc".to_string(), 1, 2),
            Entry::new("gamma.rfi".to_string(), 3, 1),
        ],
        data: vec![vec![1], vec![2, 2], vec![3]],
    }
}

#[test]
fn results_follow_matches() {
    let p = package();
    assert_eq!(names(&search_results(&p.entries, &vec![2, 0])), vec!["gamma.rfi", "alpha.rfi"]);
    assert_eq!(names(&search_results(&p.entries, &Vec::new())), names(&p.entries));
}

#[test]
fn explorer_lists_and_exports() {
    let mut x = Explorer::new();
    assert!(x.content.is_empty() && x.rpk.is_none());
    x.select(Some(package()));
    assert_eq!(names(&x.content), vec!["alpha.rfi", "beta.rfc", "gamma.rfi"]);
    x.search("beta".to_string());
    assert_eq!(x.query, "beta");
    let all = names(&package().entries);
    assert!(!x.content.is_empty());
    assert!(names(&x.content).iter().all(|n| all.contains(n)));
    if x.content.len() == 1 {
        assert_eq!(x.content[0].name, "beta.rfc");
    }
    assert_eq!(x.export(&"beta.rfc".to_string()), Some(vec![2, 2]));
    assert_eq!(x.export(&"delta".to_string()), None);
    x.select(None);
    assert!(x.rpk.is_none());
    assert!(x.query.is_empty());
    assert_eq!(x.export(&"beta.rfc".to_string()), None);
}

#[test]
fn release_versions() {
    assert_eq!(tag_version("v1.2.3"), "1.2.3");
    assert_eq!(tag_version("vv0.1.0"), "0.1.0");
    assert_eq!(tag_version("1.0.0"), "1.0.0");
    assert_eq!(compared_version("v1.0.0", true), "1.0.0");
    assert_eq!(compared_version("v1.0.0", false), "0.0.0");
}

#[test]
fn release_newer_than_current() {
    assert_eq!(update_available("v1.2.0", "1.1.0"), Some(true));
    assert_eq!(update_available("v1.1.0", "1.1.0"), Some(false));
    assert_eq!(update_available("v1.0.9", "1.1.0"), Some(false));
    assert_eq!(update_available("nightly", "0.1.0"), Some(false));
    assert_eq!(update_available("v1.0.0", "1.0.0-beta.1"), Some(true));
    assert_eq!(update_available("v2.0.0", "latest"), None);
}

#[test]
fn release_message() {
    assert_eq!(update_message("v1.2.0", "2024-01-02 03:04:05", false), "You're already up to date!");
    assert_eq!(
        update_message("v1.2.0", "2024-01-02 03:04:05", true),
        "There's a new version available: v1.2.0 (Published: 2024-01-02 03:04:05)"
    );
}
