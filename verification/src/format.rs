//! The short texts of the screen.

use vstd::prelude::*;

use crate::text::{chars, concat, decimal, digit_char, number, repeat, run, spell};
use crate::time::{seconds_between, Duration, Moment};
use crate::usage::{Window, WindowView};

verus! {

/// A text cut to `max` characters: what does not fit ends in a tilde.
pub open spec fn truncated(s: Seq<char>, max: nat) -> Seq<char> {
    if s.len() <= max {
        s
    } else {
        s.take(if max == 0 { 0 } else { max - 1 }).push('~')
    }
}

/// Cuts a text to `max` characters.
pub fn truncate(s: &str, max: usize) -> (r: String)
    ensures
        r@ == truncated(s@, max as nat),
{
    let all = chars(s);
    if all.len() <= max {
        return s.to_owned();
    }
    let keep: usize = if max == 0 { 0 } else { max - 1 };
    let mut out = spell(vstd::slice::slice_subrange(all.as_slice(), 0, keep));
    out.push('~');
    assert(out@ =~= truncated(s@, max as nat));
    out
}

/// A path cut to `max` characters at its front, since the end of a path says
/// more than its beginning.
pub open spec fn shortened(full: Seq<char>, max: nat) -> Seq<char> {
    if full.len() <= max {
        full
    } else {
        seq!['~'] + full.skip(full.len() - (if max == 0 { 0 } else { max - 1 }))
    }
}

/// Cuts a path to `max` characters at its front.
pub fn shorten_path(full: &str, max: usize) -> (r: String)
    ensures
        r@ == shortened(full@, max as nat),
{
    let all = chars(full);
    let len: usize = all.len();
    if len <= max {
        return full.to_owned();
    }
    let keep: usize = if max == 0 { 0 } else { max - 1 };
    let tail = spell(vstd::slice::slice_subrange(all.as_slice(), len - keep, len));
    let r = concat("~", tail.as_str());
    proof {
        reveal_strlit("~");
        assert(r@ =~= shortened(full@, max as nat));
    }
    r
}

// ---------------------------------------------------------------------------
// Times.

/// A number and the unit it counts.
pub open spec fn counted(n: nat, unit: char) -> Seq<char> {
    decimal(n).push(unit)
}

/// A number and the unit it counts.
fn count(n: u64, unit: char) -> (r: String)
    ensures
        r@ == counted(n as nat, unit),
{
    let mut r = number(n);
    r.push(unit);
    r
}

/// The whole seconds in a length of time.
pub open spec fn whole_seconds(d: nat) -> nat {
    d / 1_000_000_000
}

/// A number under a hundred in two digits.
pub open spec fn two_digits(n: nat) -> Seq<char> {
    seq![digit_char(n / 10), digit_char(n % 10)]
}

/// How long until a window resets, in the widest unit that still says
/// something.
pub open spec fn reset_label(w: WindowView) -> Seq<char> {
    if w.expired {
        "stale"@
    } else {
        match w.resets_in {
            None => "-"@,
            Some(d) => {
                let mins = whole_seconds(d) / 60;
                if mins < 60 {
                    counted(mins, 'm')
                } else if mins < 1440 {
                    counted(mins / 60, 'h') + two_digits(mins % 60).push('m')
                } else {
                    counted(mins / 1440, 'd') + counted((mins % 1440) / 60, 'h')
                }
            },
        }
    }
}

/// How long until a window resets, in the widest unit that still says
/// something: `2h14m`, `47m`, `6d3h`.
pub fn fmt_reset(w: &Window) -> (r: String)
    ensures
        r@ == reset_label(w.view()),
{
    if w.expired {
        return "stale".to_owned();
    }
    let d = match w.resets_in {
        None => return "-".to_owned(),
        Some(d) => d,
    };
    let mins: u64 = d.as_secs() / 60;
    if mins < 60 {
        count(mins, 'm')
    } else if mins < 1440 {
        let mut r = count(mins / 60, 'h');
        let left: u64 = mins % 60;
        r.push((48 + (left / 10) as u8) as char);
        r.push((48 + (left % 10) as u8) as char);
        r.push('m');
        assert(r@ =~= reset_label(w.view()));
        r
    } else {
        concat(count(mins / 1440, 'd').as_str(), count((mins % 1440) / 60, 'h').as_str())
    }
}

/// Time left before a finished card is dropped.
pub open spec fn countdown_label(d: nat) -> Seq<char> {
    "gone in "@ + counted(whole_seconds(d), 's')
}

/// Time left before a finished card is dropped, e.g. `gone in 42s`.
pub fn fmt_countdown(d: Duration) -> (r: String)
    ensures
        r@ == countdown_label(d@),
{
    concat("gone in ", count(d.as_secs(), 's').as_str())
}

/// How long something has been running, in one unit.
pub open spec fn uptime_label(d: nat) -> Seq<char> {
    let secs = whole_seconds(d);
    if secs < 60 {
        counted(secs, 's')
    } else if secs < 3600 {
        counted(secs / 60, 'm')
    } else {
        counted(secs / 3600, 'h')
    }
}

/// How long something has been running, in one unit.
pub fn fmt_uptime(d: Duration) -> (r: String)
    ensures
        r@ == uptime_label(d@),
{
    let secs: u64 = d.as_secs();
    if secs < 60 {
        count(secs, 's')
    } else if secs < 3600 {
        count(secs / 60, 'm')
    } else {
        count(secs / 3600, 'h')
    }
}

/// How long ago something happened, in one unit. What happens later than now
/// happened now.
pub open spec fn age_label(now: int, then: int) -> Seq<char> {
    let secs = seconds_between(then, now);
    if secs < 60 {
        "now"@
    } else if secs < 3600 {
        counted(secs / 60, 'm')
    } else if secs < 86_400 {
        counted(secs / 3600, 'h')
    } else {
        counted(secs / 86_400, 'd')
    }
}

/// How long ago something happened, in one unit: `12m`, `5h`, `3d`.
///
/// A transcript's age is read against the other rows rather than for itself,
/// so the widest unit that still separates them is the useful one.
pub fn fmt_age(now: Moment, then: Moment) -> (r: String)
    ensures
        r@ == age_label(now@, then@),
{
    let secs: u64 = now.seconds_since(then);
    if secs < 60 {
        "now".to_owned()
    } else if secs < 3600 {
        count(secs / 60, 'm')
    } else if secs < 86_400 {
        count(secs / 3600, 'h')
    } else {
        count(secs / 86_400, 'd')
    }
}

// ---------------------------------------------------------------------------
// Sizes.

/// `a / b`, rounded to the nearest whole number, and to the even one when two
/// are as near.
pub open spec fn nearest(a: nat, b: nat) -> nat {
    let low = a / b;
    let rest = a % b;
    if 2 * rest > b || (2 * rest == b && low % 2 == 1) {
        low + 1
    } else {
        low
    }
}

/// The distance between neighbouring doubles at `n`, or one where they are
/// closer than that.
pub open spec fn double_step(n: nat) -> nat
    decreases n,
{
    if n < 0x20_0000_0000_0000 {
        1
    } else {
        2 * double_step(n / 2)
    }
}

/// The double nearest to a whole number.
pub open spec fn as_double(n: nat) -> nat {
    nearest(n, double_step(n)) * double_step(n)
}

/// A size in bytes: in whole bytes, in whole kilobytes, or in megabytes to one
/// decimal place. Megabytes are what the double nearest to the size comes to.
pub open spec fn bytes_label(n: nat) -> Seq<char> {
    if n < 1024 {
        decimal(n) + " B"@
    } else if n < 1_048_576 {
        decimal(n / 1024) + " KB"@
    } else {
        let tenths = nearest(10 * as_double(n), 1_048_576);
        decimal(tenths / 10).push('.').push(digit_char(tenths % 10)) + " MB"@
    }
}

proof fn lemma_double_step(n: nat)
    ensures
        1 <= double_step(n),
        double_step(n) == 1 || double_step(n) * 0x10_0000_0000_0000 <= n,
    decreases n,
{
    if n >= 0x20_0000_0000_0000 {
        lemma_double_step(n / 2);
    }
}

/// The distance between neighbouring doubles at `n`.
fn step_at(n: u64) -> (r: u64)
    ensures
        r == double_step(n as nat),
        1 <= r <= 0x1000,
    decreases n,
{
    proof {
        lemma_double_step(n as nat);
    }
    if n < 0x20_0000_0000_0000 {
        1
    } else {
        2 * step_at(n / 2)
    }
}

/// `a / b`, rounded to the nearest whole number.
fn round(a: u128, b: u128) -> (r: u128)
    requires
        0 < b <= 1_048_576,
        a <= 0x1_0000_0000_0000_0000_0000_0000,
    ensures
        r == nearest(a as nat, b as nat),
        r <= a + 1,
{
    let low: u128 = a / b;
    let rest: u128 = a % b;
    assert(a / b <= a) by (nonlinear_arith)
        requires
            b > 0,
            a >= 0,
    ;
    if 2 * rest > b || (2 * rest == b && low % 2 == 1) {
        low + 1
    } else {
        low
    }
}

/// A size in bytes.
pub fn fmt_bytes(n: usize) -> (r: String)
    ensures
        r@ == bytes_label(n as nat),
{
    if n < 1024 {
        concat(number(n as u64).as_str(), " B")
    } else if n < 1_048_576 {
        concat(number((n / 1024) as u64).as_str(), " KB")
    } else {
        let step: u64 = step_at(n as u64);
        let low: u128 = round(n as u128, step as u128);
        proof {
            lemma_double_step(n as nat);
            assert(low * step <= 0x1_0000_0000_0000_0000 + 0x2000) by {
                lemma_nearest_times(n as nat, step as nat);
            }
        }
        let double: u128 = low * step as u128;
        let tenths: u128 = round(10 * double, 1_048_576);
        proof {
            lemma_nearest_times(10 * as_double(n as nat), 1_048_576);
        }
        let mut r = number((tenths / 10) as u64);
        r.push('.');
        r.push((48 + (tenths % 10) as u8) as char);
        concat(r.as_str(), " MB")
    }
}

proof fn lemma_nearest_times(a: nat, b: nat)
    requires
        b > 0,
    ensures
        nearest(a, b) * b <= a + b,
{
    vstd::arithmetic::div_mod::lemma_fundamental_div_mod(a as int, b as int);
    assert(b * (a / b) == (a / b) * b) by (nonlinear_arith);
    assert((a / b + 1) * b == (a / b) * b + b) by (nonlinear_arith);
}

// ---------------------------------------------------------------------------
// The bar of a limit.

/// A whole cell of the bar.
pub const FULL: char = '\u{2588}';

/// A cell of the bar that is not filled.
pub const LIGHT: char = '\u{2591}';

/// A cell of which `n` eighths are filled: the blocks are numbered from the
/// widest down.
pub open spec fn eighth_block(n: nat) -> char {
    (0x2590 - n) as char
}

/// A cell of which `n` eighths are filled.
fn eighth(n: usize) -> (c: char)
    requires
        1 <= n <= 7,
    ensures
        c == eighth_block(n as nat),
{
    if n == 1 {
        '\u{258f}'
    } else if n == 2 {
        '\u{258e}'
    } else if n == 3 {
        '\u{258d}'
    } else if n == 4 {
        '\u{258c}'
    } else if n == 5 {
        '\u{258b}'
    } else if n == 6 {
        '\u{258a}'
    } else {
        '\u{2589}'
    }
}

/// What a percentage counts for: more than everything is everything.
pub open spec fn capped(pct: u8) -> nat {
    if pct < 100 {
        pct as nat
    } else {
        100
    }
}

/// How many eighths of a cell are filled in a bar `width` cells wide.
pub open spec fn eighths(pct: u8, width: nat) -> nat {
    capped(pct) * width * 8 / 100
}

/// The filled cells of a bar: the whole ones, then the one that is partly
/// filled.
pub open spec fn bar_of(eighths: nat) -> Seq<char> {
    run(FULL, eighths / 8) + (if eighths % 8 > 0 {
        seq![eighth_block(eighths % 8)]
    } else {
        Seq::empty()
    })
}

/// The filled half of a bar `width` cells wide.
pub open spec fn filled(pct: u8, width: nat) -> Seq<char> {
    bar_of(eighths(pct, width))
}

/// The unfilled half of a bar `width` cells wide.
pub open spec fn unfilled(pct: u8, width: nat) -> Seq<char> {
    run(LIGHT, (width - filled(pct, width).len()) as nat)
}

/// A bar can be measured in eighths.
pub open spec fn measurable(pct: u8, width: nat) -> bool {
    capped(pct) * width * 8 <= usize::MAX
}

proof fn lemma_eighths(pct: u8, width: nat)
    ensures
        eighths(pct, width) <= 8 * width,
        pct >= 100 ==> eighths(pct, width) == 8 * width,
        pct < 100 && width > 0 ==> eighths(pct, width) < 8 * width,
{
    assert(capped(pct) * width <= 100 * width) by (nonlinear_arith)
        requires
            capped(pct) <= 100,
    ;
    if pct < 100 {
        assert(capped(pct) * width <= 99 * width) by (nonlinear_arith)
            requires
                capped(pct) <= 99,
        ;
    }
}

/// The filled and unfilled halves of a bar `width` cells wide.
///
/// The fill is measured in eighths so the last cell can be a partial block: a
/// whole cell is three percent or so at this width, and a bar that only moved
/// in whole cells would sit still for a quarter of an hour at a time.
pub fn usage_bar(pct: u8, width: usize) -> (r: (String, String))
    requires
        measurable(pct, width as nat),
    ensures
        r.0@ == filled(pct, width as nat),
        r.1@ == unfilled(pct, width as nat),
{
    let part: usize = if pct < 100 {
        pct as usize
    } else {
        100
    };
    proof {
        lemma_eighths(pct, width as nat);
        assert(part * width <= part * width * 8) by (nonlinear_arith);
    }
    let cells: usize = part * width;
    let eighths: usize = cells * 8 / 100;
    let whole: usize = eighths / 8;
    let rest: usize = eighths % 8;
    let mut done = repeat('\u{2588}', whole);
    let mut used: usize = whole;
    if rest > 0 {
        done.push(eighth(rest));
        used += 1;
    }
    assert(done@ =~= filled(pct, width as nat));
    let left = repeat('\u{2591}', width - used);
    (done, left)
}

// ---------------------------------------------------------------------------
// What holds of the texts as a whole.

/// A cut text takes no more room than it was given, or one character where it
/// was given none, and what fits is left alone.
pub proof fn law_a_truncated_text_fits(s: Seq<char>, max: nat)
    ensures
        truncated(s, max).len() <= if max == 0 { 1 } else { max },
        s.len() <= max ==> truncated(s, max) == s,
        s.len() > max > 0 ==> truncated(s, max).drop_last() == s.take(max - 1),
{
    if s.len() > max > 0 {
        assert(truncated(s, max).drop_last() =~= s.take(max - 1));
    }
}

/// Cutting a text twice is cutting it once.
pub proof fn law_truncating_twice_is_truncating_once(s: Seq<char>, max: nat)
    ensures
        truncated(truncated(s, max), max) == truncated(s, max),
{
    if max == 0 && s.len() > 0 {
        assert(truncated(s, max) =~= seq!['~']);
        assert(truncated(truncated(s, max), max) =~= seq!['~']);
    }
}

/// A shortened path takes no more room than it was given, or one character
/// where it was given none, and keeps the end of the path.
pub proof fn law_a_shortened_path_fits(full: Seq<char>, max: nat)
    ensures
        shortened(full, max).len() <= if max == 0 { 1 } else { max },
        full.len() <= max ==> shortened(full, max) == full,
        full.len() > max > 0 ==> shortened(full, max).skip(1) == full.skip(full.len() - (max - 1)),
{
    if full.len() > max > 0 {
        assert(shortened(full, max).skip(1) =~= full.skip(full.len() - (max - 1)));
    }
}

/// Filled and unfilled together are the bar, so the pair always covers the
/// same columns.
pub proof fn law_the_bar_spans_its_width(pct: u8, width: nat)
    ensures
        filled(pct, width).len() + unfilled(pct, width).len() == width,
{
    lemma_eighths(pct, width);
}

/// The bar only fills completely at a full window: one with anything left in
/// it does not look spent. A window of which nothing is spent shows no bar.
pub proof fn law_only_a_full_window_fills_the_bar(pct: u8, width: nat)
    requires
        width > 0,
    ensures
        (filled(pct, width) == run(FULL, width)) == (pct >= 100),
        pct == 0 ==> filled(pct, width) == Seq::<char>::empty(),
{
    lemma_eighths(pct, width);
    let e = eighths(pct, width);
    if pct >= 100 {
        assert(filled(pct, width) =~= run(FULL, width));
    } else if e % 8 > 0 {
        assert(filled(pct, width)[(e / 8) as int] == eighth_block(e % 8));
        if filled(pct, width) == run(FULL, width) {
            assert(run(FULL, width)[(e / 8) as int] == FULL);
        }
    } else {
        assert(filled(pct, width).len() == e / 8);
    }
    if pct == 0 {
        assert(capped(pct) * width == 0) by (nonlinear_arith)
            requires
                capped(pct) == 0,
        ;
        assert(filled(pct, width) =~= Seq::<char>::empty());
    }
}

proof fn lemma_bar_shows_its_eighths(a: nat, b: nat)
    requires
        a < b,
    ensures
        bar_of(a) != bar_of(b),
{
    if bar_of(a) == bar_of(b) {
        let last_a = if a % 8 > 0 {
            eighth_block(a % 8)
        } else {
            FULL
        };
        assert(b > 0);
        assert(bar_of(a).len() == a / 8 + (if a % 8 > 0 {
            1nat
        } else {
            0nat
        }));
        assert(bar_of(b).len() == b / 8 + (if b % 8 > 0 {
            1nat
        } else {
            0nat
        }));
        if a == 0 {
            assert(bar_of(b).len() > 0);
        } else {
            assert(bar_of(a).last() == last_a);
            assert(bar_of(b).last() == (if b % 8 > 0 {
                eighth_block(b % 8)
            } else {
                FULL
            }));
        }
    }
}

/// Two percentages landing inside the same cell still differ on screen, as
/// long as a percent is an eighth of a cell or more.
pub proof fn law_every_percent_shows(a: u8, b: u8, width: nat)
    requires
        a < b <= 100,
        width >= 13,
    ensures
        filled(a, width) != filled(b, width),
{
    let x = capped(a) * width * 8;
    let y = capped(b) * width * 8;
    assert(x + 100 <= y) by (nonlinear_arith)
        requires
            x == capped(a) * width * 8,
            y == capped(b) * width * 8,
            capped(a) + 1 <= capped(b),
            width >= 13,
    ;
    lemma_bar_shows_its_eighths(eighths(a, width), eighths(b, width));
}

/// More spent never draws a shorter bar.
pub proof fn law_the_bar_grows_with_what_is_spent(a: u8, b: u8, width: nat)
    requires
        a <= b,
    ensures
        eighths(a, width) <= eighths(b, width),
        filled(a, width).len() <= filled(b, width).len(),
{
    assert(capped(a) * width <= capped(b) * width) by (nonlinear_arith)
        requires
            capped(a) <= capped(b),
    ;
}

/// A stamp from the future is not a negative age, and the last minute is now.
pub proof fn law_the_future_is_now(now: int, then: int)
    requires
        now - then < 60 * 1_000_000_000,
    ensures
        age_label(now, then) == "now"@,
{
}

/// What was cut says so: a tilde stands where the rest of a text was, and in
/// front of what is left of a path.
pub proof fn law_a_cut_is_marked(s: Seq<char>, max: nat)
    requires
        s.len() > max,
    ensures
        truncated(s, max).last() == '~',
        shortened(s, max)[0] == '~',
        max > 0 ==> truncated(s, max).len() == max && shortened(s, max).len() == max,
{
}

/// A reset is said in minutes below an hour, in hours and minutes below a day,
/// and in days and hours from there on, and what it says is the time left, cut
/// to the smaller of the two units. Only a window that is over is stale, and
/// only one that is not and has no reset time shows a dash.
pub proof fn law_a_reset_says_the_time_left(w: WindowView)
    ensures
        w.expired ==> reset_label(w) == "stale"@,
        !w.expired && w.resets_in is None ==> reset_label(w) == "-"@,
        !w.expired ==> (w.resets_in matches Some(d) ==> {
            let minutes = d / 60_000_000_000;
            let hours = d / 3_600_000_000_000;
            let days = d / 86_400_000_000_000;
            &&& hours == 0 ==> reset_label(w) == decimal(minutes).push('m')
            &&& hours > 0 && days == 0 ==> ({
                let m = (minutes - 60 * hours) as nat;
                &&& 0 <= minutes - 60 * hours < 60
                &&& reset_label(w) == decimal(hours).push('h').push(
                    digit_char(m / 10),
                ).push(digit_char(m % 10)).push('m')
            })
            &&& days > 0 ==> 0 <= hours - 24 * days < 24 && reset_label(w) == decimal(days).push(
                'd',
            ) + decimal((hours - 24 * days) as nat).push('h')
        }),
{
    if !w.expired && w.resets_in is Some {
        let d = w.resets_in->0;
        let minutes = d / 60_000_000_000;
        let hours = d / 3_600_000_000_000;
        let days = d / 86_400_000_000_000;
        let mins = whole_seconds(d) / 60;
        assert(mins == minutes);
        assert(mins / 60 == hours);
        assert(mins / 1440 == days);
        assert((mins % 1440) / 60 == hours - 24 * days);
        if hours > 0 && days == 0 {
            let m = (minutes - 60 * hours) as nat;
            assert(mins % 60 == m);
            assert(reset_label(w) =~= decimal(hours).push('h').push(digit_char(m / 10)).push(
                digit_char(m % 10),
            ).push('m'));
        }
    }
}

/// A running time is said in seconds below a minute, in minutes below an hour
/// and in hours from there on, cut to that unit. The time a card has left is
/// always said in seconds.
pub proof fn law_a_running_time_says_how_long(d: nat)
    ensures
        d < 60_000_000_000 ==> uptime_label(d) == decimal(d / 1_000_000_000).push('s'),
        60_000_000_000 <= d < 3_600_000_000_000 ==> uptime_label(d) == decimal(
            d / 60_000_000_000,
        ).push('m'),
        3_600_000_000_000 <= d ==> uptime_label(d) == decimal(d / 3_600_000_000_000).push('h'),
        countdown_label(d) == "gone in "@ + decimal(d / 1_000_000_000).push('s'),
{
    assert(whole_seconds(d) / 60 == d / 60_000_000_000);
    assert(whole_seconds(d) / 3600 == d / 3_600_000_000_000);
}

/// An age is said in minutes from a minute on, in hours from an hour on and in
/// days from a day on, cut to that unit.
pub proof fn law_an_age_says_how_long_ago(now: int, then: int)
    requires
        now - then >= 60_000_000_000,
    ensures
        ({
            let d = (now - then) as nat;
            &&& d < 3_600_000_000_000 ==> age_label(now, then) == decimal(d / 60_000_000_000).push(
                'm',
            )
            &&& 3_600_000_000_000 <= d < 86_400_000_000_000 ==> age_label(now, then) == decimal(
                d / 3_600_000_000_000,
            ).push('h')
            &&& 86_400_000_000_000 <= d ==> age_label(now, then) == decimal(
                d / 86_400_000_000_000,
            ).push('d')
        }),
{
    let d = (now - then) as nat;
    let secs = seconds_between(then, now);
    assert(secs == d / 1_000_000_000);
    assert(secs / 60 == d / 60_000_000_000);
    assert(secs / 3600 == d / 3_600_000_000_000);
    assert(secs / 86_400 == d / 86_400_000_000_000);
}

/// Bytes and kilobytes are counted whole, and megabytes to the nearest tenth of
/// the size, as long as a double holds the size exactly.
pub proof fn law_a_size_is_said_to_its_unit(n: nat) -> (tenths: nat)
    ensures
        n < 1024 ==> bytes_label(n) == decimal(n) + " B"@,
        1024 <= n < 1024 * 1024 ==> bytes_label(n) == decimal(n / 1024) + " KB"@,
        1024 * 1024 <= n < 0x20_0000_0000_0000 ==> {
            &&& bytes_label(n) == decimal(tenths / 10).push('.').push(digit_char(tenths % 10))
                + " MB"@
            &&& (2 * tenths - 1) * 1_048_576 <= 20 * n <= (2 * tenths + 1) * 1_048_576
        },
{
    if 1024 * 1024 <= n < 0x20_0000_0000_0000 {
        assert(as_double(n) == n) by {
            assert(double_step(n) == 1);
            assert(nearest(n, 1) == n);
        }
    }
    nearest(10 * n, 1_048_576)
}

/// The cells of a bar that are filled whole are those that the percentage of
/// the width covers, and the cell behind them shows how many eighths of it are
/// covered, when any are.
pub proof fn law_the_bar_measures_what_is_spent(pct: u8, width: nat)
    requires
        pct <= 100,
    ensures
        ({
            let bar = filled(pct, width);
            let spent = pct as nat * width;
            let whole = spent / 100;
            let eighths = (spent % 100) * 8 / 100;
            &&& bar.len() == whole + (if eighths > 0 {
                1nat
            } else {
                0nat
            })
            &&& forall|i: int| 0 <= i < whole ==> #[trigger] bar[i] == '\u{2588}'
            &&& eighths > 0 ==> bar[whole as int] == (0x2590 - eighths) as char
            &&& forall|i: int|
                0 <= i < unfilled(pct, width).len() ==> #[trigger] unfilled(pct, width)[i]
                    == '\u{2591}'
        }),
{
    let spent = pct as nat * width;
    let e = eighths(pct, width);
    assert(capped(pct) == pct);
    assert(e == spent * 8 / 100);
    assert(e / 8 == spent / 100);
    assert(e % 8 == (spent % 100) * 8 / 100);
}

} // verus!
