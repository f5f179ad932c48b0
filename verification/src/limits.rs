//! The limits at the foot of the sidebar.

use ratatui::style::Color;
use vstd::arithmetic::power::{lemma_pow1, pow};
use vstd::prelude::*;

use crate::format::{filled, fmt_reset, fmt_uptime, law_the_bar_spans_its_width, measurable,
    reset_label, unfilled, uptime_label, usage_bar, whole_seconds};
use crate::layout::{less, SIDEBAR_WIDTH};
use crate::paint::{colored, lemma_row_width_push, plain, row_width, span, strong, Line, LineView,
    Span, SpanView, Style, Text, TextView};
use crate::text::{align_right, concat, decimal, number, repeat, run, to_the_right};
use crate::theme;
use crate::theme::Theme;
use crate::time::Duration;
use crate::usage::{Usage, UsageView, Window, WindowView};

verus! {

/// Columns kept clear either side of a limit bar, so it never runs into the
/// sidebar's border.
pub const USAGE_GUTTER: usize = 1;

/// Past this many seconds, the cached limits are old enough that the footer
/// says so instead of quietly showing them as current.
pub const USAGE_STALE: u64 = 1200;

/// Spaces for what is left of `width` columns when `used` are taken.
pub open spec fn gap(width: nat, used: nat) -> Seq<char> {
    run(' ', less(width as int, used as int) as nat)
}

/// The colour a percentage warns in.
pub open spec fn warning(t: Theme, pct: u8) -> Color {
    if pct < 50 {
        t.idle
    } else if pct < 85 {
        t.busy
    } else {
        t.dead
    }
}

/// The colour a percentage warns in.
pub fn usage_color(t: &Theme, pct: u8) -> (c: Color)
    ensures
        c == warning(*t, pct),
{
    if pct < 50 {
        theme::idle(t)
    } else if pct < 85 {
        theme::busy(t)
    } else {
        theme::dead(t)
    }
}

/// A percentage in a column of its own.
pub open spec fn percent(pct: u8) -> Seq<char> {
    align_right(decimal(pct as nat), 3).push('%')
}

/// The reset of a window in a column of its own.
pub open spec fn reset_column(w: WindowView) -> Seq<char> {
    align_right(reset_label(w), 6).push(' ')
}

/// What a window is, and how much of it is spent. The rows of a window that is
/// over go faint, since its percentage belongs to that one.
pub open spec fn heading_row(t: Theme, label: Seq<char>, w: WindowView, width: nat) -> LineView {
    let head = " "@ + label;
    let used = head.len() + percent(w.pct).len() + reset_column(w).len() + 1;
    seq![
        span(head, colored(if w.expired { t.faint } else { t.muted })),
        span(gap(width, used), plain()),
        span(percent(w.pct), strong(if w.expired { t.faint } else { warning(t, w.pct) })),
        span(" "@, plain()),
        span(reset_column(w), colored(t.faint)),
    ]
}

/// The columns of a bar.
pub open spec fn bar_width(width: nat) -> nat {
    less(width as int, 2 * USAGE_GUTTER) as nat
}

/// The bar of a window.
pub open spec fn bar_row(t: Theme, w: WindowView, width: nat) -> LineView {
    let cells = bar_width(width);
    seq![
        span(run(' ', USAGE_GUTTER as nat), plain()),
        span(filled(w.pct, cells), colored(if w.expired { t.faint } else { t.bar })),
        span(unfilled(w.pct, cells), colored(if w.expired { t.surface } else { t.bar_empty })),
        span(run(' ', USAGE_GUTTER as nat), plain()),
    ]
}

/// One window: a heading, and the bar under it.
pub open spec fn window_rows(t: Theme, label: Seq<char>, w: WindowView, width: nat) -> TextView {
    seq![heading_row(t, label, w, width), bar_row(t, w, width)]
}

/// `width` without `used`, but nothing below zero.
fn minus(width: usize, used: usize) -> (r: usize)
    ensures
        r == less(width as int, used as int),
{
    if width < used {
        0
    } else {
        width - used
    }
}

/// One window: what it is and how much of it is left, and a bar across the
/// whole sidebar under it.
///
/// Two lines rather than one, because a bar squeezed in beside the numbers had
/// five cells to say everything in: a third spent and half spent drew the
/// same.
///
/// While the window runs, the bar itself is always in its own colour: it says
/// how much is spent by its length, so a colour that changed with the number
/// would be saying the same thing twice. The percentage keeps the green-to-red warning, which is
/// the part a glance reads.
pub fn usage_rows(t: &Theme, label: &str, w: &Window, width: usize) -> (r: Text)
    requires
        measurable(w.pct, bar_width(width as nat)),
    ensures
        r.view() == window_rows(*t, label@, w.view(), width as nat),
{
    let (label_color, value_color, bar_color, empty_color) = if w.expired {
        (theme::faint(t), theme::faint(t), theme::faint(t), theme::surface(t))
    } else {
        (theme::muted(t), usage_color(t, w.pct), theme::bar(t), theme::bar_empty(t))
    };

    let head = concat(" ", label);
    let mut pct = to_the_right(number(w.pct as u64).as_str(), 3);
    pct.push('%');
    let mut reset = to_the_right(fmt_reset(w).as_str(), 6);
    reset.push(' ');
    let left: usize = minus(width, head.as_str().unicode_len());
    let left: usize = minus(left, pct.as_str().unicode_len());
    let left: usize = minus(left, reset.as_str().unicode_len());
    let left: usize = minus(left, 1);

    let (done, rest) = usage_bar(w.pct, minus(width, USAGE_GUTTER * 2));

    let heading = Line::new().with(head.as_str(), Style::colored(label_color)).raw(
        repeat(' ', left).as_str(),
    ).with(pct.as_str(), Style::strong(value_color)).raw(" ").with(
        reset.as_str(),
        Style::colored(theme::faint(t)),
    );
    assert(heading.view() =~= heading_row(*t, label@, w.view(), width as nat));
    let gutter = repeat(' ', USAGE_GUTTER);
    let bar = Line::new().raw(gutter.as_str()).with(done.as_str(), Style::colored(bar_color)).with(
        rest.as_str(),
        Style::colored(empty_color),
    ).raw(gutter.as_str());
    assert(bar.view() =~= bar_row(*t, w.view(), width as nat));
    Text::new().with(heading).with(bar)
}

/// What the title of the limits says of their age.
pub open spec fn age_note(u: UsageView, refreshing: bool) -> Option<Seq<char>> {
    if refreshing {
        Some("refreshing "@)
    } else if u.fetched_ago > USAGE_STALE * 1_000_000_000 {
        Some(uptime_label(u.fetched_ago) + " ago "@)
    } else {
        None
    }
}

/// The title of the limits, with their age at the right end when it is worth
/// saying.
pub open spec fn title_row(t: Theme, note: Option<Seq<char>>, width: nat) -> LineView {
    let title = " LIMITS"@;
    match note {
        Some(n) => seq![
            span(title, colored(t.muted)),
            span(gap(width, title.len() + n.len()), plain()),
            span(n, colored(t.faint)),
        ],
        None => seq![span(title, colored(t.muted)), span(gap(width, title.len()), plain())],
    }
}

/// The rows of a window the account has.
pub open spec fn rows_of_one(
    t: Theme,
    label: Seq<char>,
    w: Option<WindowView>,
    width: nat,
) -> TextView {
    match w {
        Some(w) => window_rows(t, label, w, width),
        None => Seq::empty(),
    }
}

/// The limits: a title, and the windows the account has. Nothing when nobody
/// has any numbers.
pub open spec fn limit_rows(
    t: Theme,
    u: Option<UsageView>,
    refreshing: bool,
    width: nat,
) -> TextView {
    match u {
        Some(u) => if u.session is None && u.weekly is None {
            Seq::empty()
        } else {
            seq![title_row(t, age_note(u, refreshing), width)] + rows_of_one(
                t,
                "session"@,
                u.session,
                width,
            ) + rows_of_one(t, "weekly"@, u.weekly, width)
        },
        None => Seq::empty(),
    }
}

/// The bars of the windows can be measured.
pub open spec fn limits_measurable(u: Option<Usage>, width: nat) -> bool {
    u matches Some(u) ==> {
        &&& u.session matches Some(w) ==> measurable(w.pct, bar_width(width))
        &&& u.weekly matches Some(w) ==> measurable(w.pct, bar_width(width))
    }
}

/// The account's rate-limit windows as the rows at the foot of the sidebar:
/// how much of each window is spent, and how long until it resets.
///
/// Nothing is drawn when the limits have never been cached. An empty footer
/// beats dashes standing in for numbers nobody has.
pub fn usage_lines(t: &Theme, usage: &Option<Usage>, refreshing: bool, width: usize) -> (r: Text)
    requires
        limits_measurable(*usage, width as nat),
    ensures
        r.view() == limit_rows(
            *t,
            match usage {
                Some(u) => Some(u.view()),
                None => None,
            },
            refreshing,
            width as nat,
        ),
{
    let u = match usage {
        Some(u) => u,
        None => return Text::new(),
    };
    if u.session.is_none() && u.weekly.is_none() {
        return Text::new();
    }
    let stale: Option<String> = if refreshing {
        Some("refreshing ".to_owned())
    } else if u.fetched_ago.longer_than(Duration::from_secs(USAGE_STALE)) {
        Some(concat(fmt_uptime(u.fetched_ago).as_str(), " ago "))
    } else {
        None
    };
    let ghost note = age_note(u.view(), refreshing);
    let title = " LIMITS";
    let mut left: usize = minus(width, title.unicode_len());
    if let Some(s) = &stale {
        left = minus(left, s.as_str().unicode_len());
    }
    let mut head = Line::new().with(title, Style::colored(theme::muted(t))).raw(
        repeat(' ', left).as_str(),
    );
    if let Some(s) = stale {
        head.push(Span::new(s.as_str(), Style::colored(theme::faint(t))));
    }
    assert(head.view() =~= title_row(*t, note, width as nat));

    let mut lines = Text::new().with(head);
    if let Some(w) = &u.session {
        lines.append(usage_rows(t, "session", w, width));
    }
    if let Some(w) = &u.weekly {
        lines.append(usage_rows(t, "weekly", w, width));
    }
    lines
}

// ---------------------------------------------------------------------------
// What holds of the limits as a whole.

proof fn lemma_row_of_two(a: SpanView, b: SpanView)
    ensures
        row_width(seq![a, b]) == a.text.len() + b.text.len(),
{
    let l = Seq::<SpanView>::empty();
    lemma_row_width_push(l, a);
    lemma_row_width_push(l.push(a), b);
    assert(seq![a, b] =~= l.push(a).push(b));
}

/// The widths of the rows of a window: the bar row spans the sidebar, and so
/// does the heading as long as what it says fits.
pub proof fn law_limit_rows_span_the_width(t: Theme, label: Seq<char>, w: WindowView, width: nat)
    ensures
        ({
            let used = 1 + label.len() + percent(w.pct).len() + reset_column(w).len() + 1;
            row_width(heading_row(t, label, w, width)) == if used < width {
                width
            } else {
                used
            }
        }),
        width >= 2 * USAGE_GUTTER ==> row_width(bar_row(t, w, width)) == width,
{
    reveal_strlit(" ");
    let h = heading_row(t, label, w, width);
    assert(h =~= seq![h[0], h[1]].push(h[2]).push(h[3]).push(h[4]));
    lemma_row_of_two(h[0], h[1]);
    lemma_row_width_push(seq![h[0], h[1]], h[2]);
    lemma_row_width_push(seq![h[0], h[1]].push(h[2]), h[3]);
    lemma_row_width_push(seq![h[0], h[1]].push(h[2]).push(h[3]), h[4]);
    let b = bar_row(t, w, width);
    assert(b =~= seq![b[0], b[1]].push(b[2]).push(b[3]));
    lemma_row_of_two(b[0], b[1]);
    lemma_row_width_push(seq![b[0], b[1]], b[2]);
    lemma_row_width_push(seq![b[0], b[1]].push(b[2]), b[3]);
    law_the_bar_spans_its_width(w.pct, bar_width(width));
}

/// The widest a length of time can be said in: no length of time counts more
/// seconds than this.
pub open spec fn seconds_fit(d: nat) -> bool {
    whole_seconds(d) <= u64::MAX
}

/// Every window there can be: its time left is a length of time.
pub open spec fn window_fits(w: WindowView) -> bool {
    w.resets_in matches Some(d) ==> seconds_fit(d)
}

proof fn lemma_decimal_width(n: nat, digits: nat)
    requires
        digits >= 1,
        n < pow(10, digits),
    ensures
        decimal(n).len() <= digits,
    decreases digits,
{
    if n >= 10 {
        lemma_pow1(10);
        if digits >= 2 {
            assert(pow(10, digits) == 10 * pow(10, (digits - 1) as nat)) by {
                reveal(pow);
            }
            lemma_decimal_width(n / 10, (digits - 1) as nat);
        }
    }
}

proof fn lemma_powers_of_ten()
    ensures
        pow(10, 2) == 100,
        pow(10, 3) == 1000,
        pow(10, 15) == 1_000_000_000_000_000,
        pow(10, 16) == 10_000_000_000_000_000,
{
    reveal(pow);
    reveal_with_fuel(pow, 17);
}

proof fn lemma_labels_are_short(w: WindowView)
    requires
        window_fits(w),
    ensures
        reset_label(w).len() <= 19,
        percent(w.pct).len() == 4,
{
    lemma_powers_of_ten();
    reveal_strlit("stale");
    reveal_strlit("-");
    lemma_decimal_width(w.pct as nat, 3);
    if !w.expired && w.resets_in is Some {
        let mins = whole_seconds(w.resets_in->0) / 60;
        if mins < 60 {
            lemma_decimal_width(mins, 2);
        } else if mins < 1440 {
            lemma_decimal_width(mins / 60, 2);
        } else {
            lemma_decimal_width(mins / 1440, 15);
            lemma_decimal_width((mins % 1440) / 60, 2);
        }
    }
}

/// A limit row fits the sidebar: the rows have no room to wrap, and the widest
/// thing they can hold still fits between the borders. Every row is exactly as
/// wide as the sidebar is inside.
pub proof fn law_a_limit_row_fits_the_sidebar(t: Theme, u: UsageView, refreshing: bool, i: int)
    requires
        seconds_fit(u.fetched_ago),
        u.session matches Some(w) ==> window_fits(w),
        u.weekly matches Some(w) ==> window_fits(w),
        0 <= i < limit_rows(t, Some(u), refreshing, (SIDEBAR_WIDTH - 2) as nat).len(),
    ensures
        row_width(limit_rows(t, Some(u), refreshing, (SIDEBAR_WIDTH - 2) as nat)[i])
            == SIDEBAR_WIDTH - 2,
{
    let width = (SIDEBAR_WIDTH - 2) as nat;
    reveal_strlit("session");
    reveal_strlit("weekly");
    reveal_strlit(" LIMITS");
    reveal_strlit("refreshing ");
    reveal_strlit(" ago ");
    lemma_powers_of_ten();

    let note = age_note(u, refreshing);
    let secs = whole_seconds(u.fetched_ago);
    if secs < 60 {
        lemma_decimal_width(secs, 2);
    } else if secs < 3600 {
        lemma_decimal_width(secs / 60, 2);
    } else {
        lemma_decimal_width(secs / 3600, 16);
    }
    let h = title_row(t, note, width);
    lemma_row_of_two(h[0], h[1]);
    if note is Some {
        assert(h =~= seq![h[0], h[1]].push(h[2]));
        lemma_row_width_push(seq![h[0], h[1]], h[2]);
    } else {
        assert(h =~= seq![h[0], h[1]]);
    }
    assert(row_width(h) == width);

    if let Some(w) = u.session {
        lemma_labels_are_short(w);
        law_limit_rows_span_the_width(t, "session"@, w, width);
    }
    if let Some(w) = u.weekly {
        lemma_labels_are_short(w);
        law_limit_rows_span_the_width(t, "weekly"@, w, width);
    }
}

/// The limits are a title and two rows for each window there is, or nothing.
pub proof fn law_a_window_takes_two_rows(
    t: Theme,
    u: Option<UsageView>,
    refreshing: bool,
    width: nat,
)
    ensures
        limit_rows(t, u, refreshing, width).len() == match u {
            Some(u) => match (u.session, u.weekly) {
                (None, None) => 0nat,
                (Some(_), Some(_)) => 5,
                _ => 3,
            },
            None => 0,
        },
{
}

} // verus!
