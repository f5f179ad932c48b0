//! The usage limits of the account, read from the cache every session keeps
//! fresh in one JSON file.
//!
//! The cache holds how much of the five-hour and seven-day windows is spent,
//! and when each one resets. It is only ever read. The file is large and
//! almost never changes, so it is read again only when its modification time
//! moves; the countdowns still have to move every second, so reading and
//! deriving are separate.

use std::path::PathBuf;

use vstd::prelude::*;
use vstd::utf8::encode_utf8;

use crate::json::{json_text, parse, round_to_byte, to_byte, Json, JsonView};
use crate::time::{epoch_millis, Duration, Moment};
use crate::timestamp::{can_place, parse_rfc3339, placeable, timestamp};

verus! {

/// `std::path::PathBuf`, which is only handed on here.
#[verifier::external_type_specification]
#[verifier::external_body]
pub struct ExPathBuf(std::path::PathBuf);

/// One rate-limit window.
#[derive(Clone, Copy, Debug, PartialEq, Eq)]
pub struct Window {
    /// Percent of the window already spent.
    pub pct: u8,
    /// Time left until it resets, or `None` when the cache carries no reset
    /// time: some windows genuinely have none.
    pub resets_in: Option<Duration>,
    /// The window reset while the cache sat unrefreshed, so its numbers
    /// describe a window that is already over.
    pub expired: bool,
}

/// The windows of the account.
#[derive(Clone, Copy, Debug, PartialEq, Eq)]
pub struct Usage {
    pub session: Option<Window>,
    pub weekly: Option<Window>,
    /// How long ago these numbers were last refreshed.
    pub fetched_ago: Duration,
}

/// What the file says, before it is turned into countdowns: of each window the
/// percentage and the second it resets at.
#[derive(Clone, Copy, Debug, PartialEq, Eq)]
pub struct Snapshot {
    pub session: Option<(u8, Option<i64>)>,
    pub weekly: Option<(u8, Option<i64>)>,
    pub fetched_at_ms: Option<u64>,
}

/// A reset time that cannot be worked out: it is too far away to be counted in
/// seconds, or its offset is not cut between characters.
#[derive(Clone, Copy, Debug, PartialEq, Eq)]
pub struct Unplaceable;

/// A window, with the time left in nanoseconds.
pub struct WindowView {
    pub pct: u8,
    pub resets_in: Option<nat>,
    pub expired: bool,
}

/// The windows, with the times in nanoseconds.
pub struct UsageView {
    pub session: Option<WindowView>,
    pub weekly: Option<WindowView>,
    pub fetched_ago: nat,
}

impl Window {
    pub open spec fn view(&self) -> WindowView {
        WindowView {
            pct: self.pct,
            resets_in: match self.resets_in {
                Some(d) => Some(d@),
                None => None,
            },
            expired: self.expired,
        }
    }

    /// Whether it shows the same as `other`.
    fn same_as(&self, other: &Window) -> (r: bool)
        ensures
            r == (self.view() == other.view()),
    {
        let left: bool = match (self.resets_in, other.resets_in) {
            (Some(a), Some(b)) => a.same_as(b),
            (None, None) => true,
            _ => false,
        };
        self.pct == other.pct && left && self.expired == other.expired
    }
}

/// An optional window, with the time left in nanoseconds.
pub open spec fn window_view(w: Option<Window>) -> Option<WindowView> {
    match w {
        Some(w) => Some(w.view()),
        None => None,
    }
}

/// What is shown, with the times in nanoseconds.
pub open spec fn usage_view(u: Option<Usage>) -> Option<UsageView> {
    match u {
        Some(u) => Some(u.view()),
        None => None,
    }
}

fn same_window(a: &Option<Window>, b: &Option<Window>) -> (r: bool)
    ensures
        r == (window_view(*a) == window_view(*b)),
{
    match (a, b) {
        (Some(a), Some(b)) => a.same_as(b),
        (None, None) => true,
        _ => false,
    }
}

fn same_usage(a: &Option<Usage>, b: &Option<Usage>) -> (r: bool)
    ensures
        r == (usage_view(*a) == usage_view(*b)),
{
    match (a, b) {
        (Some(a), Some(b)) => same_window(&a.session, &b.session) && same_window(
            &a.weekly,
            &b.weekly,
        ) && a.fetched_ago.same_as(b.fetched_ago),
        (None, None) => true,
        _ => false,
    }
}

impl Usage {
    pub open spec fn view(&self) -> UsageView {
        UsageView {
            session: window_view(self.session),
            weekly: window_view(self.weekly),
            fetched_ago: self.fetched_ago@,
        }
    }
}

// ---------------------------------------------------------------------------
// What the file says.

/// The percentage a window gives, before it is rounded: the bits of a double.
pub open spec fn utilization(v: JsonView) -> Option<u64> {
    match v.get("utilization"@) {
        Some(u) => u.double_bits(),
        None => None,
    }
}

/// The reset time a window gives, as it is written.
pub open spec fn reset_text(v: JsonView) -> Option<Seq<char>> {
    match v.get("resets_at"@) {
        Some(t) => t.text(),
        None => None,
    }
}

/// The second a window resets at. A reset time that is no timestamp is none.
pub open spec fn reset_second(v: JsonView) -> Option<i64> {
    match reset_text(v) {
        Some(s) => match timestamp(encode_utf8(s)) {
            Some(n) => Some(n as i64),
            None => None,
        },
        None => None,
    }
}

/// The window a value describes: its percentage, rounded and held between 0
/// and 255, and the second it resets at. A value without a percentage, null
/// among them, describes none.
pub open spec fn window_of(v: Option<JsonView>) -> Option<(u8, Option<i64>)> {
    match v {
        None => None,
        Some(v) => match utilization(v) {
            Some(bits) => Some((to_byte(bits), reset_second(v))),
            None => None,
        },
    }
}

/// The reset time of a window that is described at all can be worked out.
pub open spec fn window_placeable(v: Option<JsonView>) -> bool {
    v matches Some(v) ==> utilization(v) is Some ==> (reset_text(v) matches Some(s) ==> placeable(
        encode_utf8(s),
    ))
}

/// The part of the cache that holds the windows, and the windows themselves.
pub open spec fn cached(root: JsonView) -> Option<(JsonView, JsonView)> {
    match root.get("cachedUsageUtilization"@) {
        Some(cached) => match cached.get("utilization"@) {
            Some(util) => Some((cached, util)),
            None => None,
        },
        None => None,
    }
}

/// What a cache says of the limits; nothing when it has never held them.
pub open spec fn snapshot_of(root: JsonView) -> Option<Snapshot> {
    match cached(root) {
        Some((cached, util)) => Some(
            Snapshot {
                session: window_of(util.get("five_hour"@)),
                weekly: window_of(util.get("seven_day"@)),
                fetched_at_ms: match cached.get("fetchedAtMs"@) {
                    Some(n) => n.whole_number(),
                    None => None,
                },
            },
        ),
        None => None,
    }
}

/// The reset times of a cache can be worked out.
pub open spec fn cache_placeable(root: JsonView) -> bool {
    cached(root) matches Some((_, util)) ==> window_placeable(util.get("five_hour"@))
        && window_placeable(util.get("seven_day"@))
}

/// The reset time of a window, as it is written.
fn written_reset(v: &Json) -> (r: Option<&str>)
    ensures
        reset_text(v.view()) == match r {
            Some(s) => Some(s@),
            None => None,
        },
{
    match v.get("resets_at") {
        Some(t) => t.as_str(),
        None => None,
    }
}

/// The percentage of a window, as the bits of a double.
fn given_utilization(v: &Json) -> (r: Option<u64>)
    ensures
        r == utilization(v.view()),
{
    match v.get("utilization") {
        Some(u) => u.as_double(),
        None => None,
    }
}

/// Whether `window` can work the reset time out.
pub fn can_place_window(v: Option<&Json>) -> (r: bool)
    ensures
        r == window_placeable(
            match v {
                Some(v) => Some(v.view()),
                None => None,
            },
        ),
{
    match v {
        None => true,
        Some(v) => if given_utilization(v).is_none() {
            true
        } else {
            match written_reset(v) {
                Some(s) => can_place(s),
                None => true,
            }
        },
    }
}

/// The window a value describes.
pub fn window(v: Option<&Json>) -> (r: Option<(u8, Option<i64>)>)
    requires
        window_placeable(
            match v {
                Some(v) => Some(v.view()),
                None => None,
            },
        ),
    ensures
        r == window_of(
            match v {
                Some(v) => Some(v.view()),
                None => None,
            },
        ),
{
    let v = match v {
        Some(v) => v,
        None => return None,
    };
    if v.is_null() {
        return None;
    }
    let pct: u8 = match given_utilization(v) {
        Some(bits) => round_to_byte(bits),
        None => return None,
    };
    let resets_at: Option<i64> = match written_reset(v) {
        Some(s) => parse_rfc3339(s),
        None => None,
    };
    Some((pct, resets_at))
}

/// What a parsed cache says of the limits.
pub fn snapshot(root: &Json) -> (r: Option<Snapshot>)
    requires
        cache_placeable(root.view()),
    ensures
        r == snapshot_of(root.view()),
{
    match root.get("cachedUsageUtilization") {
        None => None,
        Some(cached) => match cached.get("utilization") {
            None => None,
            Some(util) => Some(
                Snapshot {
                    session: window(util.get("five_hour")),
                    weekly: window(util.get("seven_day")),
                    fetched_at_ms: match cached.get("fetchedAtMs") {
                        Some(n) => n.as_u64(),
                        None => None,
                    },
                },
            ),
        },
    }
}

/// Whether `snapshot` can work the reset times out.
pub fn can_place_cache(root: &Json) -> (r: bool)
    ensures
        r == cache_placeable(root.view()),
{
    match root.get("cachedUsageUtilization") {
        None => true,
        Some(cached) => match cached.get("utilization") {
            None => true,
            Some(util) => can_place_window(util.get("five_hour")) && can_place_window(
                util.get("seven_day"),
            ),
        },
    }
}

/// What the text of the file says of the limits. Text that is no JSON says
/// nothing, and neither does JSON without the cache.
pub fn read_snapshot(raw: &str) -> (r: Result<Option<Snapshot>, Unplaceable>)
    ensures
        match json_text(raw@) {
            None => r == Ok::<Option<Snapshot>, Unplaceable>(None),
            Some(root) => if cache_placeable(root) {
                r == Ok::<Option<Snapshot>, Unplaceable>(snapshot_of(root))
            } else {
                r is Err
            },
        },
{
    match parse(raw) {
        None => Ok(None),
        Some(root) => if can_place_cache(&root) {
            Ok(snapshot(&root))
        } else {
            Err(Unplaceable)
        },
    }
}

// ---------------------------------------------------------------------------
// What is shown.

/// A window as it stands at a second.
pub open spec fn countdown_of(limit: (u8, Option<i64>), now: int) -> WindowView {
    match limit.1 {
        Some(at) => if at > now {
            WindowView {
                pct: limit.0,
                resets_in: Some(((at - now) * 1_000_000_000) as nat),
                expired: false,
            }
        } else {
            WindowView { pct: limit.0, resets_in: None, expired: true }
        },
        None => WindowView { pct: limit.0, resets_in: None, expired: false },
    }
}

/// A window as it stands at second `now`.
pub fn countdown(limit: (u8, Option<i64>), now: u64) -> (r: Window)
    requires
        limit.1 matches Some(at) ==> at > now as i64 ==> at - now as i64 <= i64::MAX,
    ensures
        r.view() == countdown_of(limit, now as i64 as int),
{
    let now: i64 = now as i64;
    let (resets_in, expired): (Option<Duration>, bool) = match limit.1 {
        Some(at) => if at > now {
            (Some(Duration::from_secs((at - now) as u64)), false)
        } else {
            (None, true)
        },
        None => (None, false),
    };
    Window { pct: limit.0, resets_in, expired }
}

/// What a snapshot comes to at a point in time.
pub open spec fn usage_at(snap: Snapshot, now: int) -> UsageView {
    let ms = epoch_millis(now);
    let second = (ms / 1000) as int;
    UsageView {
        session: match snap.session {
            Some(l) => Some(countdown_of(l, second)),
            None => None,
        },
        weekly: match snap.weekly {
            Some(l) => Some(countdown_of(l, second)),
            None => None,
        },
        fetched_ago: match snap.fetched_at_ms {
            Some(at) => if ms >= at {
                ((ms - at) * 1_000_000) as nat
            } else {
                0
            },
            None => 0,
        },
    }
}

/// What a snapshot comes to at a point in time.
pub fn derive(snap: &Snapshot, now: Moment) -> (r: Usage)
    ensures
        r.view() == usage_at(*snap, now@),
{
    let now_ms: u64 = now.millis();
    let second: u64 = now_ms / 1000;
    assert(second as i64 == second);
    Usage {
        session: match snap.session {
            Some(l) => Some(countdown(l, second)),
            None => None,
        },
        weekly: match snap.weekly {
            Some(l) => Some(countdown(l, second)),
            None => None,
        },
        fetched_ago: match snap.fetched_at_ms {
            Some(ms) => Duration::from_millis(
                if now_ms >= ms {
                    now_ms - ms
                } else {
                    0
                },
            ),
            None => Duration::from_secs(0),
        },
    }
}

/// Keeps the limits current, but has the file read only when it has actually
/// changed.
pub struct Watch {
    /// Where the file is, when there is anywhere to look.
    pub path: Option<PathBuf>,
    /// The modification time the file had when it was last read.
    pub seen: Option<Moment>,
    /// What the file said when it was last read.
    pub snapshot: Option<Snapshot>,
    /// What is shown.
    pub current: Option<Usage>,
}

/// An optional point in time, in nanoseconds since the epoch.
pub open spec fn moment_view(m: Option<Moment>) -> Option<int> {
    match m {
        Some(t) => Some(t@),
        None => None,
    }
}

/// A watch, with the times in nanoseconds.
pub struct WatchView {
    pub path: Option<PathBuf>,
    pub seen: Option<int>,
    pub snapshot: Option<Snapshot>,
    pub current: Option<UsageView>,
}

/// A watch after a look at the file: what the file says counts only when its
/// modification time has moved, and the countdowns move either way. Without a
/// file to look at nothing changes.
pub open spec fn refreshed(
    w: WatchView,
    mtime: Option<int>,
    read: Option<Snapshot>,
    now: int,
) -> WatchView {
    if w.path is None {
        w
    } else {
        let snapshot = if mtime != w.seen {
            read
        } else {
            w.snapshot
        };
        WatchView {
            path: w.path,
            seen: mtime,
            snapshot,
            current: match snapshot {
                Some(s) => Some(usage_at(s, now)),
                None => None,
            },
        }
    }
}

impl Watch {
    pub open spec fn view(&self) -> WatchView {
        WatchView {
            path: self.path,
            seen: moment_view(self.seen),
            snapshot: self.snapshot,
            current: usage_view(self.current),
        }
    }

    /// A watch over a file that nobody has looked at yet.
    pub fn new(path: Option<PathBuf>) -> (r: Watch)
        ensures
            r.path == path,
            r.seen is None,
            r.snapshot is None,
            r.current is None,
    {
        Watch { path, seen: None, snapshot: None, current: None }
    }

    /// Whether the file has to be read, given its modification time now.
    pub fn wants_read(&self, mtime: Option<Moment>) -> (r: bool)
        ensures
            r == (self.path is Some && moment_view(mtime) != moment_view(self.seen)),
    {
        self.path.is_some() && !(match (mtime, self.seen) {
            (Some(a), Some(b)) => a.same_as(b),
            (None, None) => true,
            _ => false,
        })
    }

    /// Takes in the modification time of the file, what it said when it was
    /// read because of that, and the time. Returns true when the displayed
    /// numbers changed, so the caller knows whether a redraw is owed.
    pub fn refresh(
        &mut self,
        mtime: Option<Moment>,
        read: Option<Snapshot>,
        now: Moment,
    ) -> (changed: bool)
        ensures
            final(self).view() == refreshed(old(self).view(), moment_view(mtime), read, now@),
            changed == (final(self).view().current != old(self).view().current),
    {
        if self.path.is_none() {
            return false;
        }
        if self.wants_read(mtime) {
            self.seen = mtime;
            self.snapshot = read;
        }
        let next: Option<Usage> = match &self.snapshot {
            Some(s) => Some(derive(s, now)),
            None => None,
        };
        let changed: bool = !same_usage(&next, &self.current);
        self.current = next;
        changed
    }
}

// ---------------------------------------------------------------------------
// What holds of the limits as a whole.

/// A window that already reset says so instead of counting down, and one that
/// has not counts down without saying so: never both, and neither only when
/// there is no reset time.
pub proof fn law_a_window_counts_down_or_is_over(limit: (u8, Option<i64>), now: int)
    ensures
        countdown_of(limit, now).pct == limit.0,
        countdown_of(limit, now).expired ==> countdown_of(limit, now).resets_in is None,
        (countdown_of(limit, now).expired || countdown_of(limit, now).resets_in is Some)
            == limit.1 is Some,
{
}

/// While a window runs, the time it has left goes down second by second, and
/// when none is left it is over for good.
pub proof fn law_time_left_goes_down(limit: (u8, Option<i64>), now: int, later: int)
    requires
        now <= later,
    ensures
        countdown_of(limit, now).expired ==> countdown_of(limit, later).expired,
        countdown_of(limit, later).resets_in matches Some(left) ==> (countdown_of(
            limit,
            now,
        ).resets_in == Some((left + (later - now) * 1_000_000_000) as nat)),
{
}

/// A second look at an unchanged file changes nothing, whatever reading it
/// again would say.
pub proof fn law_an_unchanged_file_is_not_read_again(
    w: WatchView,
    mtime: Option<int>,
    read: Option<Snapshot>,
    again: Option<Snapshot>,
    now: int,
)
    ensures
        refreshed(refreshed(w, mtime, read, now), mtime, again, now) == refreshed(
            w,
            mtime,
            read,
            now,
        ),
{
}

/// A null window is simply absent, as is one the cache does not hold.
pub proof fn law_a_null_window_is_absent()
    ensures
        window_of(None) is None,
        window_of(Some(JsonView::Null)) is None,
{
}

} // verus!
