//! What holds of the cached limits as a whole: which member of the cache says
//! what, and what is shown of it at which moment.

use vstd::prelude::*;
use vstd::utf8::encode_utf8;

use crate::json::{to_byte, JsonView};
use crate::timestamp::{placeable, timestamp};
use crate::usage::{cache_placeable, refreshed, snapshot_of, usage_at, utilization, window_of,
    Snapshot, Usage, WatchView};

verus! {

// ---------------------------------------------------------------------------
// The cache.

/// A member is found by its name, the first one of that name, and what is not
/// there is not found. Only an object has members.
pub proof fn law_a_member_is_found_by_its_name(
    members: Seq<(Seq<char>, JsonView)>,
    key: Seq<char>,
    i: int,
)
    ensures
        (0 <= i < members.len() && members[i].0 == key && forall|j: int|
            0 <= j < i ==> (#[trigger] members[j]).0 != key) ==> JsonView::Object(members).get(key)
            == Some(members[i].1),
        (forall|j: int| 0 <= j < members.len() ==> (#[trigger] members[j]).0 != key)
            ==> JsonView::Object(members).get(key) is None,
    decreases members.len(),
{
    if members.len() > 0 {
        let rest = members.skip(1);
        law_a_member_is_found_by_its_name(rest, key, i - 1);
        if forall|j: int| 0 <= j < members.len() ==> (#[trigger] members[j]).0 != key {
            assert forall|j: int| 0 <= j < rest.len() implies (#[trigger] rest[j]).0 != key by {
                assert(rest[j] == members[j + 1]);
            }
            assert(members[0].0 != key);
        }
        if 0 <= i < members.len() && members[i].0 == key && forall|j: int|
            0 <= j < i ==> (#[trigger] members[j]).0 != key {
            if i > 0 {
                assert(members[0].0 != key);
                assert(rest[i - 1] == members[i]);
                assert forall|j: int| 0 <= j < i - 1 implies (#[trigger] rest[j]).0 != key by {
                    assert(rest[j] == members[j + 1]);
                }
            }
        }
    }
}

/// What is no object has no members.
pub proof fn law_only_an_object_has_members(v: JsonView, key: Seq<char>)
    requires
        !(v is Object),
    ensures
        v.get(key) is None,
{
}

/// A value that gives a percentage.
pub open spec fn gives_percentage(window: Option<JsonView>, bits: u64) -> bool {
    window matches Some(w) && w.get("utilization"@) matches Some(JsonView::Number { double, .. })
        && double == Some(bits)
}

/// The session window is read from the member for five hours and the weekly
/// one from the member for seven days: each is there exactly when its own
/// member gives a percentage, which it shows rounded, and it resets at the
/// second its own member names. The numbers were fetched when the cache says.
/// A cache without the limits says nothing.
pub proof fn law_each_window_is_read_from_its_own_member(
    root: JsonView,
    cached: JsonView,
    windows: JsonView,
    five: u64,
    seven: u64,
)
    requires
        root.get("cachedUsageUtilization"@) == Some(cached),
        cached.get("utilization"@) == Some(windows),
    ensures
        snapshot_of(root) matches Some(s) && {
            &&& gives_percentage(windows.get("five_hour"@), five) ==> s.session == Some(
                (to_byte(five), reset_named_by(windows.get("five_hour"@)->0)),
            )
            &&& (forall|bits: u64| !gives_percentage(windows.get("five_hour"@), bits))
                ==> s.session is None
            &&& gives_percentage(windows.get("seven_day"@), seven) ==> s.weekly == Some(
                (to_byte(seven), reset_named_by(windows.get("seven_day"@)->0)),
            )
            &&& (forall|bits: u64| !gives_percentage(windows.get("seven_day"@), bits))
                ==> s.weekly is None
            &&& cached.get("fetchedAtMs"@) matches Some(JsonView::Number { whole, .. })
                ==> s.fetched_at_ms == whole
            &&& !(cached.get("fetchedAtMs"@) matches Some(JsonView::Number { .. }))
                ==> s.fetched_at_ms is None
        },
{
    lemma_window(windows.get("five_hour"@), five);
    lemma_window(windows.get("seven_day"@), seven);
}

/// The second a window names: what its timestamp stands for, when it is one.
pub open spec fn reset_named_by(window: JsonView) -> Option<i64> {
    match window.get("resets_at"@) {
        Some(JsonView::Text(s)) => match timestamp(encode_utf8(s)) {
            Some(n) => Some(n as i64),
            None => None,
        },
        _ => None,
    }
}

proof fn lemma_window(window: Option<JsonView>, bits: u64)
    ensures
        gives_percentage(window, bits) ==> window_of(window) == Some(
            (to_byte(bits), reset_named_by(window->0)),
        ),
        (forall|b: u64| !gives_percentage(window, b)) ==> window_of(window) is None,
{
    if window_of(window) is Some {
        let w = window->0;
        let b = utilization(w)->0;
        assert(gives_percentage(window, b));
    }
}

/// A cache that has never held the limits says nothing of them.
pub proof fn law_no_cache_no_limits(root: JsonView)
    ensures
        root.get("cachedUsageUtilization"@) is None ==> snapshot_of(root) is None,
        root.get("cachedUsageUtilization"@) matches Some(c) ==> c.get("utilization"@) is None
            ==> snapshot_of(root) is None,
{
}

// ---------------------------------------------------------------------------
// What is shown.

/// At a moment after the epoch each window shows its own percentage. It is over
/// from its reset second on, and before that the seconds it has left bring the
/// second of the moment to the second of the reset. A window without a reset
/// second is never over and has no time left to show. The age of the numbers
/// brings the time they were fetched at to the moment, to the millisecond, and
/// numbers from the future are not older than nothing.
pub proof fn law_each_window_counts_to_its_own_reset(snap: Snapshot, now: int)
    requires
        0 <= now,
        now / 1_000_000 < 0x1_0000_0000_0000_0000,
    ensures
        ({
            let u = usage_at(snap, now);
            let second = now / 1_000_000_000;
            &&& (u.session is Some) == (snap.session is Some)
            &&& (u.weekly is Some) == (snap.weekly is Some)
            &&& snap.session matches Some((pct, at)) ==> {
                let w = u.session->0;
                &&& w.pct == pct
                &&& w.expired == (at matches Some(reset) && reset <= second)
                &&& (w.resets_in is Some) == (at matches Some(reset) && second < reset)
                &&& w.resets_in matches Some(left) ==> second * 1_000_000_000 + left == at->0
                    * 1_000_000_000
            }
            &&& snap.weekly matches Some((pct, at)) ==> {
                let w = u.weekly->0;
                &&& w.pct == pct
                &&& w.expired == (at matches Some(reset) && reset <= second)
                &&& (w.resets_in is Some) == (at matches Some(reset) && second < reset)
                &&& w.resets_in matches Some(left) ==> second * 1_000_000_000 + left == at->0
                    * 1_000_000_000
            }
            &&& snap.fetched_at_ms matches Some(at) ==> if at * 1_000_000 <= now {
                at * 1_000_000 + u.fetched_ago <= now < at * 1_000_000 + u.fetched_ago + 1_000_000
            } else {
                u.fetched_ago == 0
            }
            &&& snap.fetched_at_ms is None ==> u.fetched_ago == 0
        }),
{
    let ms = now / 1_000_000;
    assert(ms % 0x1_0000_0000_0000_0000 == ms);
    assert(ms / 1000 == now / 1_000_000_000);
}

/// A look at a file that has changed takes what was read, one at a file that
/// has not keeps what was known, and either way what is shown is that, at the
/// time of the look. Where there is no file to look at, nothing changes.
pub proof fn law_a_look_shows_what_the_file_says(
    w: WatchView,
    mtime: Option<int>,
    read: Option<Snapshot>,
    now: int,
)
    ensures
        w.path is None ==> refreshed(w, mtime, read, now) == w,
        w.path is Some ==> ({
            let r = refreshed(w, mtime, read, now);
            &&& r.path == w.path
            &&& r.seen == mtime
            &&& mtime != w.seen ==> r.snapshot == read
            &&& mtime == w.seen ==> r.snapshot == w.snapshot
            &&& (r.current is Some) == (r.snapshot is Some)
            &&& r.snapshot matches Some(s) ==> r.current == Some(usage_at(s, now))
        }),
{
}

/// A cache whose reset times can be worked out can be read, and so can one that
/// names none.
pub proof fn law_a_cache_of_ordinary_times_can_be_read(
    root: JsonView,
    cached: JsonView,
    windows: JsonView,
)
    requires
        root.get("cachedUsageUtilization"@) == Some(cached),
        cached.get("utilization"@) == Some(windows),
        windows.get("five_hour"@) matches Some(w) ==> (w.get("resets_at"@) matches Some(
            JsonView::Text(s),
        ) ==> placeable(encode_utf8(s))),
        windows.get("seven_day"@) matches Some(w) ==> (w.get("resets_at"@) matches Some(
            JsonView::Text(s),
        ) ==> placeable(encode_utf8(s))),
    ensures
        cache_placeable(root),
{
}

/// Before the epoch the limits stand as they do at the epoch.
pub proof fn law_time_starts_at_the_epoch(snap: Snapshot, now: int)
    requires
        now < 0,
    ensures
        usage_at(snap, now) == usage_at(snap, 0),
{
}

/// What is said of the limits is said of every one of them.
pub proof fn law_the_limits_are_seen_whole(u: Usage)
    ensures
        u.view().fetched_ago == u.fetched_ago@,
        (u.view().session is Some) == (u.session is Some),
        (u.view().weekly is Some) == (u.weekly is Some),
        u.session matches Some(w) ==> u.view().session->0.pct == w.pct
            && u.view().session->0.expired == w.expired && (u.view().session->0.resets_in is Some)
            == (w.resets_in is Some) && (w.resets_in matches Some(d)
            ==> u.view().session->0.resets_in == Some(d@)),
        u.weekly matches Some(w) ==> u.view().weekly->0.pct == w.pct && u.view().weekly->0.expired
            == w.expired && (u.view().weekly->0.resets_in is Some) == (w.resets_in is Some)
            && (w.resets_in matches Some(d) ==> u.view().weekly->0.resets_in == Some(d@)),
{
}

} // verus!
