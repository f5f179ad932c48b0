use fleet::format::{
    fmt_age, fmt_bytes, fmt_countdown, fmt_reset, fmt_uptime, shorten_path, truncate, usage_bar,
};
use fleet::layout::SIDEBAR_WIDTH;
use fleet::limits::USAGE_GUTTER;
use fleet::time::{Duration, Moment};
use fleet::usage::Window;

fn window(pct: u8, secs: u64, expired: bool) -> Window {
    Window {
        pct,
        resets_in: if expired { None } else { Some(Duration::from_secs(secs)) },
        expired,
    }
}

#[test]
fn the_bar_spans_the_sidebar_whatever_it_is_filled_to() {
    // Filled and unfilled together are the bar, so the pair always covers
    // the same columns; otherwise the two windows would not line up.
    let inner = usize::from(SIDEBAR_WIDTH) - 2 - USAGE_GUTTER * 2;
    for pct in 0..=100u8 {
        let (filled, empty) = usage_bar(pct, inner);
        assert_eq!(
            filled.chars().count() + empty.chars().count(),
            inner,
            "{pct}% has the wrong width"
        );
    }
}

#[test]
fn an_age_reads_in_one_unit_and_says_now_for_the_last_minute() {
    let now = Moment::new(10 * 86_400, 0);
    let ago = |secs: i64| fmt_age(now, Moment::new(10 * 86_400 - secs, 0));
    assert_eq!(ago(5), "now");
    assert_eq!(ago(12 * 60), "12m");
    assert_eq!(ago(5 * 3600), "5h");
    assert_eq!(ago(3 * 86_400 + 3600), "3d");
    // A stamp from the future is not a negative age.
    assert_eq!(fmt_age(now, Moment::new(10 * 86_400 + 60, 0)), "now");
}

#[test]
fn a_reset_reads_in_the_widest_unit_that_still_says_something() {
    assert_eq!(fmt_reset(&window(0, 47 * 60, false)), "47m");
    assert_eq!(fmt_reset(&window(0, 2 * 3600 + 14 * 60, false)), "2h14m");
    assert_eq!(fmt_reset(&window(0, 6 * 86_400 + 3 * 3600, false)), "6d3h");
    assert_eq!(fmt_reset(&window(0, 0, true)), "stale");
}

#[test]
fn the_bar_only_fills_completely_at_a_full_window() {
    // A window with anything left in it must not look spent.
    let width = 30;
    assert_ne!(
        usage_bar(99, width).0,
        usage_bar(100, width).0,
        "99% looks full"
    );
    assert_eq!(usage_bar(100, width).0, "\u{2588}".repeat(width));
    assert_eq!(usage_bar(0, width).0, "");
}

#[test]
fn a_partial_cell_marks_what_a_whole_cell_could_not() {
    // Two percentages landing inside the same cell still differ on screen.
    let width = 30;
    assert_ne!(usage_bar(41, width).0, usage_bar(42, width).0);
}

#[test]
fn a_bar_ends_in_the_eighths_that_are_left() {
    assert_eq!(usage_bar(50, 10), ("█████".to_string(), "░░░░░".to_string()));
    assert_eq!(usage_bar(41, 3), ("█\u{258f}".to_string(), "░".to_string()));
    let partial: Vec<String> = [13, 25, 38, 50, 63, 75, 88].iter().map(|p| usage_bar(*p, 1).0).collect();
    assert_eq!(
        partial,
        ["\u{258f}", "\u{258e}", "\u{258d}", "\u{258c}", "\u{258b}", "\u{258a}", "\u{2589}"]
    );
    // More than everything is everything.
    assert_eq!(usage_bar(255, 4), usage_bar(100, 4));
    assert_eq!(usage_bar(70, 0), (String::new(), String::new()));
}

#[test]
fn every_percent_draws_a_bar_of_its_own() {
    for width in 13..40 {
        for pct in 1..=100u8 {
            assert_ne!(usage_bar(pct - 1, width).0, usage_bar(pct, width).0);
        }
    }
}

#[test]
fn a_reset_without_a_time_is_a_dash() {
    let none = Window { pct: 3, resets_in: None, expired: false };
    assert_eq!(fmt_reset(&none), "-");
    assert_eq!(fmt_reset(&window(0, 59, false)), "0m");
    assert_eq!(fmt_reset(&window(0, 3600, false)), "1h00m");
    assert_eq!(fmt_reset(&window(0, 86_399, false)), "23h59m");
    assert_eq!(fmt_reset(&window(0, 86_400, false)), "1d0h");
}

#[test]
fn running_times_read_in_one_unit() {
    assert_eq!(fmt_uptime(Duration::new(59, 999_999_999)), "59s");
    assert_eq!(fmt_uptime(Duration::from_secs(60)), "1m");
    assert_eq!(fmt_uptime(Duration::from_secs(3599)), "59m");
    assert_eq!(fmt_uptime(Duration::from_secs(100 * 3600)), "100h");
    assert_eq!(fmt_countdown(Duration::from_millis(42_900)), "gone in 42s");
    assert_eq!(fmt_age(Moment::new(0, 0), Moment::new(-60, 0)), "1m");
    assert_eq!(fmt_age(Moment::new(0, 0), Moment::new(-60, 1)), "now");
}

#[test]
fn what_does_not_fit_ends_in_a_tilde() {
    assert_eq!(truncate("häuser", 6), "häuser");
    assert_eq!(truncate("häuser", 5), "häus~");
    assert_eq!(truncate("häuser", 1), "~");
    assert_eq!(truncate("häuser", 0), "~");
    assert_eq!(truncate("", 0), "");
    let once = truncate("a long name", 4);
    assert_eq!(truncate(&once, 4), once);
}

#[test]
fn a_path_keeps_its_end() {
    assert_eq!(shorten_path("/home/me/src", 12), "/home/me/src");
    assert_eq!(shorten_path("/home/me/src", 8), "~/me/src");
    assert_eq!(shorten_path("/home/me/src", 1), "~");
    assert_eq!(shorten_path("/home/me/src", 0), "~");
    assert_eq!(shorten_path("/ü/ä", 3), "~/ä");
}

#[test]
fn sizes_read_in_bytes_kilobytes_or_megabytes() {
    assert_eq!(fmt_bytes(0), "0 B");
    assert_eq!(fmt_bytes(1023), "1023 B");
    assert_eq!(fmt_bytes(1024), "1 KB");
    assert_eq!(fmt_bytes(1_048_575), "1023 KB");
    assert_eq!(fmt_bytes(1_048_576), "1.0 MB");
    assert_eq!(fmt_bytes(1_310_720), "1.2 MB");
    assert_eq!(fmt_bytes(1_835_008), "1.8 MB");
    assert_eq!(fmt_bytes(52_428_799), "50.0 MB");
}

#[test]
fn megabytes_are_what_a_double_prints() {
    let mut sizes: Vec<u64> = Vec::new();
    for k in 0..3000u64 {
        sizes.push(1_048_576 + k * 26_214);
        sizes.push(1_048_576 + k * 262_144);
        sizes.push(1_048_576 * (k + 1) + 52_428);
        sizes.push(1_048_576 * (k + 1) + 52_429);
    }
    for e in 20..64u32 {
        for d in 0..40u64 {
            sizes.push((1u64 << e).wrapping_add(d));
            sizes.push((1u64 << e).wrapping_sub(d + 1));
            sizes.push((1u64 << e).wrapping_add(d << (e / 2)));
        }
    }
    sizes.push(u64::MAX);
    for n in sizes {
        if n >= 1_048_576 {
            let n = n as usize;
            assert_eq!(fmt_bytes(n), format!("{:.1} MB", n as f64 / 1_048_576.0), "{n}");
        }
    }
}
