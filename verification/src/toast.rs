//! Toast notifications: what they say, and when each one closes by itself.
//!
//! Times are milliseconds on one clock; a toast that is shown carries the time
//! it appeared, one that was closed carries none.

use vstd::prelude::*;

verus! {

/// Seconds that a toast stays before it closes by itself.
pub const DEFAULT_TIMEOUT: u64 = 10;

/// The icons of the toasts.
#[derive(Debug, Clone, Copy, PartialEq, Eq, Structural)]
pub enum Icon {
    Danger,
    Info,
    Success,
}

/// The kind of a toast.
#[derive(Debug, Clone, Copy, PartialEq, Eq, Structural)]
pub enum Status {
    Primary,
    Secondary,
    Success,
    Danger,
}

impl Status {
    /// The kind's name.
    pub fn as_str(&self) -> (r: &'static str)
        ensures
            r@ == match *self {
                Status::Primary => "Primary"@,
                Status::Secondary => "Secondary"@,
                Status::Success => "Success"@,
                Status::Danger => "Danger"@,
            },
    {
        match self {
            Status::Primary => "Primary",
            Status::Secondary => "Secondary",
            Status::Success => "Success",
            Status::Danger => "Danger",
        }
    }

    /// The icon shown for the kind.
    pub fn icon(&self) -> (r: Icon)
        ensures
            r == match *self {
                Status::Primary => Icon::Info,
                Status::Secondary => Icon::Info,
                Status::Success => Icon::Success,
                Status::Danger => Icon::Danger,
            },
    {
        match self {
            Status::Primary => Icon::Info,
            Status::Secondary => Icon::Info,
            Status::Success => Icon::Success,
            Status::Danger => Icon::Danger,
        }
    }
}

/// A notification.
pub struct Toast {
    pub title: String,
    pub body: String,
    pub status: Status,
}

impl Toast {
    /// An empty primary toast.
    pub fn new() -> (r: Self)
        ensures
            r.title@.len() == 0,
            r.body@.len() == 0,
            r.status == Status::Primary,
    {
        Toast { title: String::new(), body: String::new(), status: Status::Primary }
    }
}

/// The times of the toasts still shown, in order.
pub open spec fn shown(s: Seq<Option<u64>>) -> Seq<Option<u64>>
    decreases s.len(),
{
    if s.len() == 0 {
        Seq::empty()
    } else if s.last() is Some {
        shown(s.drop_last()).push(s.last())
    } else {
        shown(s.drop_last())
    }
}

/// The times after the toasts are matched with `n` toasts at time `now`:
/// closed ones are dropped, extra ones cut off, and new toasts appear at `now`.
pub open spec fn synced(s: Seq<Option<u64>>, n: nat, now: u64) -> Seq<Option<u64>> {
    let k = shown(s);
    if k.len() > n {
        k.take(n as int)
    } else {
        k + Seq::new((n - k.len()) as nat, |i: int| Some(now))
    }
}

/// Matches the toasts' times with the `n` toasts now shown.
pub fn sync_times(times: &mut Vec<Option<u64>>, n: usize, now: u64)
    ensures
        final(times)@ == synced(old(times)@, n as nat, now),
{
    let ghost orig = times@;
    let mut kept: Vec<Option<u64>> = Vec::new();
    let mut i: usize = 0;
    while i < times.len()
        invariant
            i <= times.len(),
            times@ == orig,
            kept@ == shown(orig.take(i as int)),
        decreases times.len() - i,
    {
        assert(orig.take(i + 1).drop_last() =~= orig.take(i as int));
        assert(orig.take(i + 1).last() == orig[i as int]);
        if times[i].is_some() {
            kept.push(times[i]);
        }
        i = i + 1;
    }
    assert(orig.take(orig.len() as int) =~= orig);
    if kept.len() > n {
        kept.truncate(n);
    } else {
        let ghost base = kept@;
        let m = n - kept.len();
        let mut j: usize = 0;
        while j < m
            invariant
                j <= m,
                m == n - base.len(),
                kept@ == base + Seq::new(j as nat, |k: int| Some(now)),
            decreases m - j,
        {
            kept.push(Some(now));
            assert(base + Seq::new((j + 1) as nat, |k: int| Some(now)) =~= (base + Seq::new(
                j as nat,
                |k: int| Some(now),
            )).push(Some(now)));
            j = j + 1;
        }
    }
    assert(kept@ =~= synced(orig, n as nat, now));
    *times = kept;
}

/// When to draw the toasts again.
#[derive(Debug, Clone, Copy, PartialEq, Eq, Structural)]
pub enum Redraw {
    /// On the next frame.
    NextFrame,
    /// At the given time.
    At(u64),
}

/// The earlier of two redraws; the next frame comes before any time.
pub open spec fn earlier(a: Redraw, b: Redraw) -> Redraw {
    match (a, b) {
        (Redraw::NextFrame, _) => Redraw::NextFrame,
        (_, Redraw::NextFrame) => Redraw::NextFrame,
        (Redraw::At(x), Redraw::At(y)) => if x <= y {
            a
        } else {
            b
        },
    }
}

/// Milliseconds left before a toast that appeared at `t` closes, at `now`.
pub open spec fn remaining(t: u64, now: u64, timeout_ms: u64) -> u64 {
    let elapsed = if now >= t {
        now - t
    } else {
        0
    };
    if elapsed >= timeout_ms {
        0
    } else {
        (timeout_ms - elapsed) as u64
    }
}

/// Whether a toast of time `t` is due to close at `now`.
pub open spec fn is_due(t: Option<u64>, now: u64, timeout_ms: u64) -> bool {
    t matches Some(x) && remaining(x, now, timeout_ms) == 0
}

/// The indices, among the first `n`, of the toasts due to close.
pub open spec fn due_indices(s: Seq<Option<u64>>, now: u64, timeout_ms: u64, n: int) -> Seq<usize>
    decreases n,
{
    if n <= 0 {
        Seq::empty()
    } else if is_due(s[n - 1], now, timeout_ms) {
        due_indices(s, now, timeout_ms, n - 1).push((n - 1) as usize)
    } else {
        due_indices(s, now, timeout_ms, n - 1)
    }
}

/// The redraw requested after looking at the first `n` toasts.
pub open spec fn next_redraw(s: Seq<Option<u64>>, now: u64, timeout_ms: u64, n: int) -> Option<
    Redraw,
>
    decreases n,
{
    if n <= 0 {
        None
    } else {
        let r = next_redraw(s, now, timeout_ms, n - 1);
        match s[n - 1] {
            None => r,
            Some(t) => {
                let here = if remaining(t, now, timeout_ms) == 0 {
                    Redraw::NextFrame
                } else {
                    Redraw::At((now + remaining(t, now, timeout_ms)) as u64)
                };
                match r {
                    None => Some(here),
                    Some(q) => Some(earlier(q, here)),
                }
            },
        }
    }
}

/// Closes the toasts whose time is up at `now`: their times are cleared. Gives
/// the indices of the toasts closed and when to draw again.
pub fn expire(times: &mut Vec<Option<u64>>, now: u64, timeout_secs: u64) -> (r: (
    Vec<usize>,
    Option<Redraw>,
))
    requires
        timeout_secs <= u64::MAX / 1000,
        now + timeout_secs * 1000 <= u64::MAX,
    ensures
        final(times)@.len() == old(times)@.len(),
        forall|i: int|
            0 <= i < old(times)@.len() ==> #[trigger] final(times)@[i] == if is_due(
                old(times)@[i],
                now,
                (timeout_secs * 1000) as u64,
            ) {
                None
            } else {
                old(times)@[i]
            },
        r.0@ == due_indices(old(times)@, now, (timeout_secs * 1000) as u64, old(times)@.len() as int),
        r.1 == next_redraw(old(times)@, now, (timeout_secs * 1000) as u64, old(times)@.len() as int),
{
    let timeout_ms = timeout_secs * 1000;
    let ghost orig = times@;
    let mut closed: Vec<usize> = Vec::new();
    let mut next: Option<Redraw> = None;
    let mut i: usize = 0;
    while i < times.len()
        invariant
            i <= times.len(),
            times@.len() == orig.len(),
            timeout_ms == timeout_secs * 1000,
            now + timeout_ms <= u64::MAX,
            forall|k: int|
                0 <= k < i ==> #[trigger] times@[k] == if is_due(orig[k], now, timeout_ms) {
                    None
                } else {
                    orig[k]
                },
            forall|k: int| i <= k < orig.len() ==> #[trigger] times@[k] == orig[k],
            closed@ == due_indices(orig, now, timeout_ms, i as int),
            next == next_redraw(orig, now, timeout_ms, i as int),
        decreases times.len() - i,
    {
        match times[i] {
            None => {},
            Some(t) => {
                let elapsed = if now >= t {
                    now - t
                } else {
                    0
                };
                let left = if elapsed >= timeout_ms {
                    0
                } else {
                    timeout_ms - elapsed
                };
                assert(left == remaining(t, now, timeout_ms));
                let here = if left == 0 {
                    times.set(i, None);
                    closed.push(i);
                    Redraw::NextFrame
                } else {
                    Redraw::At(now + left)
                };
                next = match next {
                    None => Some(here),
                    Some(q) => Some(
                        match (q, here) {
                            (Redraw::NextFrame, _) => Redraw::NextFrame,
                            (_, Redraw::NextFrame) => Redraw::NextFrame,
                            (Redraw::At(x), Redraw::At(y)) => if x <= y {
                                q
                            } else {
                                here
                            },
                        },
                    ),
                };
            },
        }
        i = i + 1;
    }
    (closed, next)
}

} // verus!
