//! The sidebar: a card for each session, and the limits below them.

use ratatui::style::Color;
use vstd::prelude::*;

use crate::format::{capped, countdown_label, fmt_countdown, fmt_uptime, law_a_truncated_text_fits,
    measurable, truncate, truncated, uptime_label};
use crate::layout::{footer, inside, less, on_screen, pane_inner_rect, rows_of, Rect, SIDEBAR_WIDTH};
use crate::limits::{bar_width, gap, law_a_window_takes_two_rows, limit_rows, usage_lines};
use crate::model::{App, Entry, Mode, Session};
use crate::names;
use crate::names::in_capitals;
use crate::paint::{blank, colored, lemma_row_width_push, one, plain, row_width, span, strong, Frame,
    FrameView, Items, Line, LineView, SpanView, Style, Text, TextView};
use crate::text::{concat, concat3, decimal, number, repeat, same};
use crate::theme;
use crate::time::Duration;
use crate::usage::usage_view;

verus! {

// ---------------------------------------------------------------------------
// A session of our own.

/// What a card says of the state of its session: a glyph, the state in words,
/// and the colour of both.
pub struct Badge {
    pub glyph: &'static str,
    pub color: Color,
    pub words: String,
}

/// What a card says of the state of its session.
pub struct BadgeView {
    pub glyph: Seq<char>,
    pub color: Color,
    pub words: Seq<char>,
}

impl Badge {
    pub open spec fn view(&self) -> BadgeView {
        BadgeView { glyph: self.glyph@, color: self.color, words: self.words@ }
    }
}

/// How long the card of a finished session stays.
pub open spec fn time_left(app: App, s: Session) -> nat {
    match s.finished_for {
        Some(d) => less(app.finished_ttl@ as int, d@ as int) as nat,
        None => app.finished_ttl@,
    }
}

/// The status the registry gives a session, when it has an entry there.
pub open spec fn status_of(s: Session) -> Option<Seq<char>> {
    match s.entry {
        Some(e) => Some(e.status@),
        None => None,
    }
}

/// What a card says of the state of its session. Finished cards expire on
/// their own, so they show how long they have left. A session that has not
/// written its registry entry yet is starting.
pub open spec fn badge_of(app: App, s: Session) -> BadgeView {
    let t = app.theme;
    if !s.is_alive {
        BadgeView { glyph: "x"@, color: t.dead, words: countdown_label(time_left(app, s)) }
    } else if status_of(s) == Some("busy"@) {
        BadgeView { glyph: "*"@, color: t.busy, words: app.labels.busy@ }
    } else if status_of(s) == Some("idle"@) {
        BadgeView { glyph: "o"@, color: t.idle, words: app.labels.idle@ }
    } else if status_of(s) == Some("waiting"@) {
        BadgeView { glyph: "?"@, color: t.ask, words: app.labels.waiting@ }
    } else {
        BadgeView { glyph: "-"@, color: t.muted, words: app.labels.starting@ }
    }
}

/// Whether a session has the given status.
fn has_status(s: &Session, status: &str) -> (r: bool)
    ensures
        r == (status_of(*s) == Some(status@)),
{
    match &s.entry {
        Some(e) => same(e.status.as_str(), status),
        None => false,
    }
}

/// What a card says of the state of its session.
fn badge(app: &App, s: &Session) -> (r: Badge)
    ensures
        r.view() == badge_of(*app, *s),
{
    let t = &app.theme;
    if !s.is_alive {
        let left: Duration = match s.finished_for {
            Some(d) => app.finished_ttl.saturating_sub(d),
            None => app.finished_ttl,
        };
        Badge { glyph: "x", color: theme::dead(t), words: fmt_countdown(left) }
    } else if has_status(s, "busy") {
        Badge { glyph: "*", color: theme::busy(t), words: app.labels.busy.clone() }
    } else if has_status(s, "idle") {
        Badge { glyph: "o", color: theme::idle(t), words: app.labels.idle.clone() }
    } else if has_status(s, "waiting") {
        // Stopped on a dialog or a permission prompt: nothing is running and
        // nothing will, until someone answers it.
        Badge { glyph: "?", color: theme::ask(t), words: app.labels.waiting.clone() }
    } else {
        Badge { glyph: "-", color: theme::muted(t), words: app.labels.starting.clone() }
    }
}

/// The name on a card: what the registry calls the session, or what it was
/// started as.
pub open spec fn name_of(s: Session) -> Seq<char> {
    truncated(
        match s.entry {
            Some(e) => e.name@,
            None => s.label@,
        },
        16,
    )
}

/// The function key of a card. Only the first nine have one.
pub open spec fn hotkey_of(i: nat) -> Seq<char> {
    if i < 9 {
        "F"@ + decimal(i + 1)
    } else {
        ""@
    }
}

/// The first row of a card: what the session is called, and its key.
pub open spec fn card_top(app: App, i: int) -> LineView {
    let s = app.sessions@[i];
    let t = app.theme;
    let name = name_of(s);
    let hotkey = hotkey_of(i as nat);
    seq![
        span(" "@, plain()),
        span(badge_of(app, s).glyph, colored(badge_of(app, s).color)),
        span(" "@, plain()),
        span(name, if i == app.selected { strong(t.text) } else { colored(t.text) }),
        span(gap(SIDEBAR_WIDTH as nat, 4 + name.len() + hotkey.len() + 2), plain()),
        span(hotkey, colored(t.faint)),
    ]
}

/// The second row of a card: where the session works, what it does, and since
/// when.
pub open spec fn card_bottom(app: App, i: int) -> LineView {
    let s = app.sessions@[i];
    let t = app.theme;
    seq![
        span("   "@, plain()),
        span(truncated(s.cwd_label@, 12), colored(t.muted)),
        span(" "@, plain()),
        span(badge_of(app, s).words, colored(badge_of(app, s).color)),
        span(" "@, plain()),
        span(uptime_label(s.running_for@), colored(t.faint)),
    ]
}

/// The card of a session.
pub open spec fn card_of(app: App, i: int) -> TextView {
    seq![card_top(app, i), card_bottom(app, i)]
}

/// The function key that numbers a card.
fn hotkey(i: usize) -> (r: String)
    ensures
        r@ == hotkey_of(i as nat),
{
    if i < 9 {
        concat("F", number(i as u64 + 1).as_str())
    } else {
        "".to_owned()
    }
}

/// The card of a session.
fn card(app: &App, i: usize) -> (r: Text)
    requires
        i < app.sessions@.len(),
    ensures
        r.view() == card_of(*app, i as int),
{
    let s = &app.sessions[i];
    let t = &app.theme;
    let badge = badge(app, s);
    let name = match &s.entry {
        Some(e) => truncate(e.name.as_str(), 16),
        None => truncate(s.label.as_str(), 16),
    };
    let hotkey = hotkey(i);
    proof {
        law_a_truncated_text_fits(
            match &s.entry {
                Some(e) => e.name@,
                None => s.label@,
            },
            16,
        );
        lemma_hotkey(i as nat);
    }
    let used: usize = 4 + name.as_str().unicode_len() + hotkey.as_str().unicode_len() + 2;
    let pad: usize = if used < SIDEBAR_WIDTH as usize {
        SIDEBAR_WIDTH as usize - used
    } else {
        0
    };
    let name_style = if i == app.selected {
        Style::strong(theme::text(t))
    } else {
        Style::colored(theme::text(t))
    };
    let top = Line::new().raw(" ").with(badge.glyph, Style::colored(badge.color)).raw(" ").with(
        name.as_str(),
        name_style,
    ).raw(repeat(' ', pad).as_str()).with(hotkey.as_str(), Style::colored(theme::faint(t)));
    assert(top.view() =~= card_top(*app, i as int));
    let bottom = Line::new().raw("   ").with(
        truncate(s.cwd_label.as_str(), 12).as_str(),
        Style::colored(theme::muted(t)),
    ).raw(" ").with(badge.words.as_str(), Style::colored(badge.color)).raw(" ").with(
        fmt_uptime(s.running_for).as_str(),
        Style::colored(theme::faint(t)),
    );
    assert(bottom.view() =~= card_bottom(*app, i as int));
    Text::new().with(top).with(bottom)
}

proof fn lemma_hotkey(i: nat)
    ensures
        hotkey_of(i).len() <= 2,
        i < 9 ==> hotkey_of(i).len() == 2,
{
    reveal_strlit("F");
    reveal_strlit("");
}

// ---------------------------------------------------------------------------
// The other rows of the list.

/// The next free function key is a button as much as the cards above it are,
/// so it gets a row of its own rather than living only in the help.
pub open spec fn new_session_row(app: App) -> LineView {
    let t = app.theme;
    seq![
        span(" + "@, colored(t.accent)),
        span("new session"@, colored(t.muted)),
        span(gap(SIDEBAR_WIDTH as nat, 3 + "new session"@.len() + 4), plain()),
        span("F"@ + decimal(app.sessions@.len() + 1), colored(t.faint)),
    ]
}

fn new_session_line(app: &App) -> (r: Line)
    requires
        app.sessions@.len() < 9,
    ensures
        r.view() == new_session_row(*app),
{
    let t = &app.theme;
    proof {
        reveal_strlit("new session");
    }
    let used: usize = 3 + "new session".unicode_len() + 4;
    let key = concat("F", number(app.sessions.len() as u64 + 1).as_str());
    Line::new().with(" + ", Style::colored(theme::accent(t))).with(
        "new session",
        Style::colored(theme::muted(t)),
    ).raw(repeat(' ', SIDEBAR_WIDTH as usize - used).as_str()).with(
        key.as_str(),
        Style::colored(theme::faint(t)),
    )
}

/// A newer build can be started.
pub open spec fn update_row(app: App) -> LineView {
    let t = app.theme;
    seq![
        span(" ^ "@, colored(t.ask)),
        span("new build"@, strong(t.ask)),
        span(gap(SIDEBAR_WIDTH as nat, 3 + "new build"@.len() + 3), plain()),
        span("r"@, colored(t.ask)),
    ]
}

fn update_line(app: &App) -> (r: Line)
    ensures
        r.view() == update_row(*app),
{
    let t = &app.theme;
    proof {
        reveal_strlit("new build");
    }
    let used: usize = 3 + "new build".unicode_len() + 3;
    Line::new().with(" ^ ", Style::colored(theme::ask(t))).with(
        "new build",
        Style::strong(theme::ask(t)),
    ).raw(repeat(' ', SIDEBAR_WIDTH as usize - used).as_str()).with(
        "r",
        Style::colored(theme::ask(t)),
    )
}

/// The colour of a session that was started outside the fleet.
pub open spec fn foreign_color(app: App, e: Entry) -> Color {
    if e.status@ == "busy"@ {
        app.theme.busy
    } else if e.status@ == "waiting"@ {
        app.theme.ask
    } else {
        app.theme.idle
    }
}

/// What is said of a session that was started outside the fleet: what it waits
/// for when it says so, that it waits, or its status as it is written.
pub open spec fn foreign_state(app: App, e: Entry) -> Seq<char> {
    if e.is_waiting && e.waiting_for@.len() > 0 {
        app.labels.waiting@ + ": "@ + e.waiting_for@
    } else if e.is_waiting {
        app.labels.waiting@
    } else {
        e.status@
    }
}

/// The card of a session that was started outside the fleet.
pub open spec fn foreign_card_of(app: App, e: Entry) -> TextView {
    let t = app.theme;
    seq![
        seq![span(" ! "@, colored(t.faint)), span(truncated(e.name@, 20), colored(t.muted))],
        seq![
            span("   "@, plain()),
            span(truncated(e.cwd_label@, 12), colored(t.faint)),
            span(" "@, plain()),
            span(
                truncated(foreign_state(app, e), 12),
                (Style { dim: true, ..colored(foreign_color(app, e)) }),
            ),
        ],
    ]
}

/// The card of a session that was started outside the fleet.
fn foreign_card(app: &App, e: &Entry) -> (r: Text)
    ensures
        r.view() == foreign_card_of(*app, *e),
{
    let t = &app.theme;
    let color = if same(e.status.as_str(), "busy") {
        theme::busy(t)
    } else if same(e.status.as_str(), "waiting") {
        theme::ask(t)
    } else {
        theme::idle(t)
    };
    let state = if e.is_waiting && e.waiting_for.as_str().unicode_len() > 0 {
        concat3(app.labels.waiting.as_str(), ": ", e.waiting_for.as_str())
    } else if e.is_waiting {
        app.labels.waiting.clone()
    } else {
        e.status.clone()
    };
    let top = Line::new().with(" ! ", Style::colored(theme::faint(t))).with(
        truncate(e.name.as_str(), 20).as_str(),
        Style::colored(theme::muted(t)),
    );
    assert(top.view() =~= foreign_card_of(*app, *e)[0]);
    let bottom = Line::new().raw("   ").with(
        truncate(e.cwd_label.as_str(), 12).as_str(),
        Style::colored(theme::faint(t)),
    ).raw(" ").with(truncate(state.as_str(), 12).as_str(), Style::colored(color).dim());
    assert(bottom.view() =~= foreign_card_of(*app, *e)[1]);
    Text::new().with(top).with(bottom)
}

/// What stands where no card does.
pub open spec fn no_sessions(app: App) -> TextView {
    seq![
        blank(),
        one("  no sessions"@, colored(app.theme.muted)),
        one("  press n"@, colored(app.theme.faint)),
    ]
}

// ---------------------------------------------------------------------------
// The list.

/// The cards of our own sessions.
pub open spec fn own_items(app: App) -> Seq<TextView> {
    Seq::new(app.sessions@.len(), |i: int| card_of(app, i))
}

/// The button for a new session: while there are sessions, and a key is free.
pub open spec fn new_items(app: App) -> Seq<TextView> {
    if 0 < app.sessions@.len() < 9 {
        seq![seq![new_session_row(app)]]
    } else {
        Seq::empty()
    }
}

/// The button for a newer build.
pub open spec fn update_items(app: App) -> Seq<TextView> {
    if app.update_ready {
        seq![seq![update_row(app)]]
    } else {
        Seq::empty()
    }
}

/// The cards of the sessions that were started outside the fleet, under a
/// heading.
pub open spec fn foreign_items(app: App) -> Seq<TextView> {
    if app.foreign@.len() > 0 {
        seq![seq![one(" --- UNREACHABLE"@, colored(app.theme.faint))]] + Seq::new(
            app.foreign@.len(),
            |i: int| foreign_card_of(app, app.foreign@[i]),
        )
    } else {
        Seq::empty()
    }
}

/// Everything there is to list.
pub open spec fn listed(app: App) -> Seq<TextView> {
    own_items(app) + new_items(app) + update_items(app) + foreign_items(app)
}

/// The entries of the list, which is never empty.
pub open spec fn items_of(app: App) -> Seq<TextView> {
    if listed(app).len() == 0 {
        seq![no_sessions(app)]
    } else {
        listed(app)
    }
}

/// The entries of the list.
fn items(app: &App) -> (r: Items)
    ensures
        r.view() == items_of(*app),
{
    let t = &app.theme;
    let mut items = Items::new();
    let mut i: usize = 0;
    assert(items.view() =~= own_items(*app).take(0));
    while i < app.sessions.len()
        invariant
            i <= app.sessions@.len(),
            items.view() == own_items(*app).take(i as int),
        decreases app.sessions@.len() - i,
    {
        items.push(card(app, i));
        assert(own_items(*app).take(i as int).push(card_of(*app, i as int)) =~= own_items(
            *app,
        ).take(i + 1));
        i += 1;
    }
    assert(items.view() =~= own_items(*app));

    if app.sessions.len() > 0 && app.sessions.len() < 9 {
        let row = Text::new().with(new_session_line(app));
        assert(row.view() =~= seq![new_session_row(*app)]);
        items.push(row);
    }
    assert(items.view() =~= own_items(*app) + new_items(*app));

    if app.update_ready {
        let row = Text::new().with(update_line(app));
        assert(row.view() =~= seq![update_row(*app)]);
        items.push(row);
    }
    assert(items.view() =~= own_items(*app) + new_items(*app) + update_items(*app));

    let ghost before = items.view();
    if app.foreign.len() > 0 {
        let row = Text::new().one(" --- UNREACHABLE", Style::colored(theme::faint(t)));
        assert(row.view() =~= seq![one(" --- UNREACHABLE"@, colored(t.faint))]);
        items.push(row);
        let mut j: usize = 0;
        assert(items.view() =~= before + foreign_items(*app).take(1));
        while j < app.foreign.len()
            invariant
                j <= app.foreign@.len(),
                app.foreign@.len() > 0,
                items.view() == before + foreign_items(*app).take(j + 1),
            decreases app.foreign@.len() - j,
        {
            items.push(foreign_card(app, &app.foreign[j]));
            assert(foreign_items(*app).take(j + 1).push(
                foreign_card_of(*app, app.foreign@[j as int]),
            ) =~= foreign_items(*app).take(j + 2));
            assert(items.view() =~= before + foreign_items(*app).take(j + 2));
            j += 1;
        }
        assert(items.view() =~= before + foreign_items(*app));
    }
    assert(items.view() =~= listed(*app));

    if items.is_empty() {
        let hint = Text::new().blank().one("  no sessions", Style::colored(theme::muted(t))).one(
            "  press n",
            Style::colored(theme::faint(t)),
        );
        assert(hint.view() =~= no_sessions(*app));
        items.push(hint);
        assert(items.view() =~= seq![no_sessions(*app)]);
    }
    items
}

// ---------------------------------------------------------------------------
// The sidebar.

/// The sidebar: its frame, the list, and the limits at its foot.
pub struct Sidebar {
    pub area: Rect,
    pub frame: Frame,
    pub items: Items,
    /// How the selected entry looks.
    pub highlight: Style,
    /// Which entry is selected.
    pub selected: Option<usize>,
    pub list_area: Rect,
    pub limits: Text,
    pub limits_area: Rect,
}

/// The sidebar: its frame, the list, and the limits at its foot.
pub struct SidebarView {
    pub area: Rect,
    pub frame: FrameView,
    pub items: Seq<TextView>,
    pub highlight: Style,
    pub selected: Option<usize>,
    pub list_area: Rect,
    pub limits: TextView,
    pub limits_area: Rect,
}

impl Sidebar {
    pub open spec fn view(&self) -> SidebarView {
        SidebarView {
            area: self.area,
            frame: self.frame.view(),
            items: self.items.view(),
            highlight: self.highlight,
            selected: self.selected,
            list_area: self.list_area,
            limits: self.limits.view(),
            limits_area: self.limits_area,
        }
    }
}

/// How many of `rows` rows the limits get in a sidebar `height` rows high. The
/// list keeps four rows. Each window is a heading and the bar under it; what
/// does not fit whole is dropped whole.
pub open spec fn reserved(rows: nat, height: u16) -> nat {
    let room = less(height as int, 4);
    if rows <= room {
        rows
    } else if room >= 3 {
        (1 + (room - 1) / 2 * 2) as nat
    } else {
        0
    }
}

/// The frame of the sidebar. The accent border marks which half of the screen
/// has the keyboard.
pub open spec fn sidebar_frame(app: App) -> FrameView {
    let t = app.theme;
    FrameView {
        border: if app.mode == Mode::Focus {
            t.faint
        } else {
            t.accent
        },
        title: Some(
            seq![
                span(" "@ + in_capitals(app.assistant@) + " "@, strong(t.accent)),
                span("FLEET "@, colored(t.muted)),
            ],
        ),
        bottom: Some(
            one(" "@ + decimal(app.sessions@.len()) + " of our own "@, colored(t.faint)),
        ),
        bottom_right: None,
    }
}

/// The sidebar in an area.
pub open spec fn sidebar_of(app: App, area: Rect) -> SidebarView {
    let inner = inside(area);
    let limits = limit_rows(
        app.theme,
        usage_view(app.usage),
        app.usage_refreshing,
        inner.width as nat,
    );
    let kept = reserved(limits.len(), inner.height);
    let (list_area, limits_area) = rows_of(0, kept as u16, inner);
    SidebarView {
        area,
        frame: sidebar_frame(app),
        items: items_of(app),
        highlight: Style {
            fg: Some(app.theme.text),
            bg: Some(app.theme.surface),
            bold: true,
            dim: false,
            underlined: false,
        },
        selected: if app.sessions@.len() > 0 {
            Some(app.selected)
        } else {
            None
        },
        list_area,
        limits: limits.take(kept as int),
        limits_area,
    }
}

/// The frame of the sidebar.
fn frame(app: &App) -> (r: Frame)
    ensures
        r.view() == sidebar_frame(*app),
{
    let t = &app.theme;
    let banner = concat3(" ", names::banner(app.assistant.as_str()).as_str(), " ");
    let title = Line::new().with(banner.as_str(), Style::strong(theme::accent(t))).with(
        "FLEET ",
        Style::colored(theme::muted(t)),
    );
    assert(title.view() =~= sidebar_frame(*app).title->0);
    let count = concat3(" ", number(app.sessions.len() as u64).as_str(), " of our own ");
    let bottom = Line::new().with(count.as_str(), Style::colored(theme::faint(t)));
    assert(bottom.view() =~= sidebar_frame(*app).bottom->0);
    Frame {
        border: if app.mode == Mode::Focus {
            theme::faint(t)
        } else {
            theme::accent(t)
        },
        title: Some(title),
        bottom: Some(bottom),
        bottom_right: None,
    }
}

/// The sidebar in an area.
///
/// The limits are a footer, not a card, so they take the bottom rows and the
/// list takes what is left. A sidebar too short for both keeps the sessions.
pub fn draw_sidebar(app: &App, area: Rect) -> (r: Sidebar)
    ensures
        r.view() == sidebar_of(*app, area),
{
    let t = &app.theme;
    let inner = pane_inner_rect(area);
    proof {
        assert forall|pct: u8| #[trigger] measurable(pct, bar_width(inner.width as nat)) by {
            let cells = bar_width(inner.width as nat);
            assert(capped(pct) * cells * 8 <= 100 * 65535 * 8) by (nonlinear_arith)
                requires
                    capped(pct) <= 100,
                    cells <= 65535,
            ;
        }
    }
    let mut limits = usage_lines(t, &app.usage, app.usage_refreshing, inner.width as usize);
    let rows: u16 = limits.len() as u16;
    let room: u16 = if inner.height < 4 {
        0
    } else {
        inner.height - 4
    };
    let mut kept: u16 = if rows < room {
        rows
    } else {
        room
    };
    if kept < rows {
        kept = if kept >= 3 {
            1 + (kept - 1) / 2 * 2
        } else {
            0
        };
        limits.truncate(kept as usize);
    }
    let (list_area, limits_area) = footer(kept, inner);
    let r = Sidebar {
        area,
        frame: frame(app),
        items: items(app),
        highlight: Style {
            fg: Some(theme::text(t)),
            bg: Some(theme::surface(t)),
            bold: true,
            dim: false,
            underlined: false,
        },
        selected: if app.sessions.len() > 0 {
            Some(app.selected)
        } else {
            None
        },
        list_area,
        limits,
        limits_area,
    };
    assert(r.limits.view() =~= sidebar_of(*app, area).limits);
    r
}

// ---------------------------------------------------------------------------
// What holds of the sidebar as a whole.

/// The first row of a card is as wide as every other card's, and leaves one
/// column clear inside the border: the keys stand below each other.
pub proof fn law_the_keys_of_the_cards_line_up(app: App, i: int)
    requires
        0 <= i < app.sessions@.len(),
    ensures
        row_width(card_top(app, i)) == SIDEBAR_WIDTH - 3,
{
    let s = app.sessions@[i];
    law_a_truncated_text_fits(
        match s.entry {
            Some(e) => e.name@,
            None => s.label@,
        },
        16,
    );
    lemma_hotkey(i as nat);
    reveal_strlit(" ");
    reveal_strlit("x");
    reveal_strlit("*");
    reveal_strlit("o");
    reveal_strlit("?");
    reveal_strlit("-");
    let c = card_top(app, i);
    let e = Seq::<SpanView>::empty();
    lemma_row_width_push(e, c[0]);
    lemma_row_width_push(e.push(c[0]), c[1]);
    lemma_row_width_push(e.push(c[0]).push(c[1]), c[2]);
    lemma_row_width_push(e.push(c[0]).push(c[1]).push(c[2]), c[3]);
    lemma_row_width_push(e.push(c[0]).push(c[1]).push(c[2]).push(c[3]), c[4]);
    lemma_row_width_push(e.push(c[0]).push(c[1]).push(c[2]).push(c[3]).push(c[4]), c[5]);
    assert(c =~= e.push(c[0]).push(c[1]).push(c[2]).push(c[3]).push(c[4]).push(c[5]));
}

proof fn lemma_row_of_four(c: LineView)
    requires
        c.len() == 4,
    ensures
        row_width(c) == c[0].text.len() + c[1].text.len() + c[2].text.len() + c[3].text.len(),
{
    let e = Seq::<SpanView>::empty();
    lemma_row_width_push(e, c[0]);
    lemma_row_width_push(e.push(c[0]), c[1]);
    lemma_row_width_push(e.push(c[0]).push(c[1]), c[2]);
    lemma_row_width_push(e.push(c[0]).push(c[1]).push(c[2]), c[3]);
    assert(c =~= e.push(c[0]).push(c[1]).push(c[2]).push(c[3]));
}

/// The buttons below the cards fill the sidebar from border to border.
pub proof fn law_the_buttons_span_the_sidebar(app: App)
    requires
        app.sessions@.len() < 9,
    ensures
        row_width(new_session_row(app)) == SIDEBAR_WIDTH - 2,
        row_width(update_row(app)) == SIDEBAR_WIDTH - 2,
{
    reveal_strlit(" + ");
    reveal_strlit("new session");
    reveal_strlit("F");
    reveal_strlit(" ^ ");
    reveal_strlit("new build");
    reveal_strlit("r");
    lemma_row_of_four(new_session_row(app));
    lemma_row_of_four(update_row(app));
}

/// The list is never empty, our own sessions come first in it, and the
/// selected entry is the card of the selected session.
pub proof fn law_the_selected_entry_is_the_selected_session(app: App, area: Rect)
    requires
        app.selected < app.sessions@.len(),
    ensures
        sidebar_of(app, area).selected == Some(app.selected),
        items_of(app).len() >= app.sessions@.len() >= 1,
        items_of(app)[app.selected as int] == card_of(app, app.selected as int),
{
}

/// Without anything to list the sidebar says so, and nothing is selected.
pub proof fn law_an_empty_fleet_says_so(app: App, area: Rect)
    requires
        app.sessions@.len() == 0,
        !app.update_ready,
        app.foreign@.len() == 0,
    ensures
        items_of(app) == seq![no_sessions(app)],
        sidebar_of(app, area).selected is None,
{
}

/// Half a window reads as a bug, so what does not fit whole is dropped whole:
/// the limits that stay are a title and whole windows, or nothing. As many
/// stay as fit beside the four rows the list keeps.
pub proof fn law_limits_are_dropped_whole(rows: nat, height: u16)
    requires
        rows == 0 || (rows >= 3 && rows % 2 == 1),
    ensures
        ({
            let kept = reserved(rows, height);
            &&& kept == 0 || (kept >= 3 && kept % 2 == 1)
            &&& kept <= rows
            &&& kept > 0 ==> kept + 4 <= height
            &&& kept < rows ==> kept + 2 > height - 4 || (kept == 0 && height < 7)
            &&& rows + 4 <= height ==> kept == rows
        }),
{
}

/// The list and the limits share the inside of the sidebar, the limits below
/// the list, with exactly as many rows as they have lines. While there are
/// limits, the list has at least four rows.
pub proof fn law_the_list_and_the_limits_share_the_sidebar(app: App, area: Rect)
    requires
        on_screen(area),
    ensures
        ({
            let s = sidebar_of(app, area);
            let inner = inside(area);
            &&& s.limits_area.height == s.limits.len()
            &&& s.list_area.height + s.limits_area.height == inner.height
            &&& s.list_area.y == inner.y
            &&& s.limits_area.y == inner.y + s.list_area.height
            &&& s.list_area.x == inner.x && s.limits_area.x == inner.x
            &&& s.list_area.width == inner.width && s.limits_area.width == inner.width
            &&& s.limits.len() > 0 ==> s.list_area.height >= 4
        }),
{
    law_a_window_takes_two_rows(
        app.theme,
        usage_view(app.usage),
        app.usage_refreshing,
        inside(area).width as nat,
    );
}

} // verus!
