use emtk::toast::{expire, sync_times, Icon, Redraw, Status, Toast, DEFAULT_TIMEOUT};

#[test]
fn toast_kinds() {
    let t = Toast::new();
    assert!(t.title.is_empty() && t.body.is_empty());
    assert_eq!(t.status, Status::Primary);
    assert_eq!(Status::Secondary.as_str(), "Secondary");
    assert_eq!(Status::Primary.icon(), Icon::Info);
    assert_eq!(Status::Secondary.icon(), Icon::Info);
    assert_eq!(Status::Success.icon(), Icon::Success);
    assert_eq!(Status::Danger.icon(), Icon::Danger);
}

#[test]
fn times_follow_the_toasts() {
    let mut t = vec![Some(1), None, Some(3)];
    sync_times(&mut t, 3, 10);
    assert_eq!(t, vec![Some(1), Some(3), Some(10)]);
    sync_times(&mut t, 1, 20);
    assert_eq!(t, vec![Some(1)]);
    let mut empty: Vec<Option<u64>> = Vec::new();
    sync_times(&mut empty, 2, 5);
    assert_eq!(empty, vec![Some(5), Some(5)]);
}

#[test]
fn toasts_close_after_timeout() {
    let mut t = vec![Some(0), Some(5_000), None];
    let (closed, redraw) = expire(&mut t, 10_000, DEFAULT_TIMEOUT);
    assert_eq!(closed, vec![0]);
    assert_eq!(redraw, Some(Redraw::NextFrame));
    assert_eq!(t, vec![None, Some(5_000), None]);

    let mut u = vec![Some(9_000), Some(4_000)];
    let (closed, redraw) = expire(&mut u, 10_000, DEFAULT_TIMEOUT);
    assert!(closed.is_empty());
    assert_eq!(redraw, Some(Redraw::At(14_000)));
    assert_eq!(u, vec![Some(9_000), Some(4_000)]);

    let mut none: Vec<Option<u64>> = vec![None];
    assert_eq!(expire(&mut none, 1, 1), (Vec::new(), None));
}

#[test]
fn toast_from_the_future_waits_full_timeout() {
    let mut t = vec![Some(50)];
    let (closed, redraw) = expire(&mut t, 10, 1);
    assert!(closed.is_empty());
    assert_eq!(redraw, Some(Redraw::At(1_010)));
}
