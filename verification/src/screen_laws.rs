//! What holds of everything on the screen: whose numbers, names and places
//! stand where.

use ratatui::style::Color;
use vstd::prelude::*;

use crate::dialog::{alive, form_dialog, kill_dialog, mkdir_dialog, picker_dialog, restart_dialog};
use crate::format::{age_label, bytes_label, countdown_label, filled, reset_label, shortened,
    truncated, unfilled, uptime_label};
use crate::help::help_dialog;
use crate::layout::{inside, parts, Rect};
use crate::limits::{limit_rows, window_rows};
use crate::model::{App, Form, Mode, Picker, Session};
use crate::names::in_capitals;
use crate::paint::{LineView, TextView};
use crate::pane::{pane_of, PaneView};
use crate::screen::{dialogs_of, picture_of};
use crate::sidebar::{card_of, items_of, sidebar_of};
use crate::status::{hint_row, hint_spans, hints_of, status_row};
use crate::text::{align_left, align_right, decimal};
use crate::theme::Theme;
use crate::usage::{usage_view, UsageView, WindowView};

verus! {

// ---------------------------------------------------------------------------
// The limits.

/// Two rows say everything of one window: its label, its percentage in the
/// colour that warns of it, its reset, and under them the bar of that
/// percentage, one column away from both edges. Once the window is over they
/// are faint.
pub open spec fn rows_show(
    t: Theme,
    heading: LineView,
    bar: LineView,
    label: Seq<char>,
    w: WindowView,
    width: nat,
) -> bool {
    let cells = if width < 2 {
        0nat
    } else {
        (width - 2) as nat
    };
    &&& heading.len() == 5
    &&& heading[0].text == " "@ + label
    &&& heading[2].text == align_right(decimal(w.pct as nat), 3).push('%')
    &&& heading[2].style.bold
    &&& heading[4].text == align_right(reset_label(w), 6).push(' ')
    &&& heading[4].style.fg == Some(t.faint)
    &&& bar.len() == 4
    &&& bar[0].text.len() == 1 && bar[3].text.len() == 1
    &&& bar[1].text == filled(w.pct, cells)
    &&& bar[2].text == unfilled(w.pct, cells)
    &&& w.expired ==> {
        &&& heading[0].style.fg == Some(t.faint)
        &&& heading[2].style.fg == Some(t.faint)
        &&& bar[1].style.fg == Some(t.faint)
        &&& bar[2].style.fg == Some(t.surface)
    }
    &&& !w.expired ==> {
        &&& heading[0].style.fg == Some(t.muted)
        &&& w.pct < 50 ==> heading[2].style.fg == Some(t.idle)
        &&& 50 <= w.pct < 85 ==> heading[2].style.fg == Some(t.busy)
        &&& 85 <= w.pct ==> heading[2].style.fg == Some(t.dead)
        &&& bar[1].style.fg == Some(t.bar)
        &&& bar[2].style.fg == Some(t.bar_empty)
    }
}

/// The rows that are headed session show the session window and those that are
/// headed weekly show the weekly one, the session first, each of them when the
/// account has it. The title above them says that the numbers are being
/// refreshed, or their age once they are older than twenty minutes.
pub proof fn law_each_heading_shows_its_own_window(
    t: Theme,
    u: UsageView,
    refreshing: bool,
    width: nat,
)
    requires
        u.session is Some || u.weekly is Some,
    ensures
        ({
            let rows = limit_rows(t, Some(u), refreshing, width);
            let second = if u.session is Some {
                3int
            } else {
                1
            };
            &&& u.session matches Some(w) ==> rows_show(
                t,
                rows[1],
                rows[2],
                "session"@,
                w,
                width,
            )
            &&& u.weekly matches Some(w) ==> rows_show(
                t,
                rows[second],
                rows[second + 1],
                "weekly"@,
                w,
                width,
            )
            &&& rows[0][0].text == " LIMITS"@ && rows[0][0].style.fg == Some(t.muted)
            &&& rows[0].len() == 3 ==> rows[0][2].style.fg == Some(t.faint)
            &&& refreshing ==> rows[0].len() == 3 && rows[0][2].text == "refreshing "@
            &&& !refreshing && u.fetched_ago > 1_200_000_000_000 ==> rows[0].len() == 3
                && rows[0][2].text == uptime_label(u.fetched_ago) + " ago "@
            &&& !refreshing && u.fetched_ago <= 1_200_000_000_000 ==> rows[0].len() == 2
        }),
{
    let rows = limit_rows(t, Some(u), refreshing, width);
    if let Some(w) = u.session {
        let own = window_rows(t, "session"@, w, width);
        assert(rows[1] == own[0] && rows[2] == own[1]);
    }
    if let Some(w) = u.weekly {
        let own = window_rows(t, "weekly"@, w, width);
        if u.session is Some {
            assert(rows[3] == own[0] && rows[4] == own[1]);
        } else {
            assert(rows[1] == own[0] && rows[2] == own[1]);
        }
    }
}

/// The limits of two windows are those of the session alone with the rows of
/// the weekly window alone below them.
pub proof fn law_the_windows_stand_below_each_other(
    t: Theme,
    u: UsageView,
    refreshing: bool,
    width: nat,
)
    requires
        u.session is Some,
        u.weekly is Some,
    ensures
        limit_rows(t, Some(u), refreshing, width) == limit_rows(
            t,
            Some((UsageView { weekly: None, ..u })),
            refreshing,
            width,
        ) + limit_rows(t, Some((UsageView { session: None, ..u })), refreshing, width).skip(1),
{
    assert(limit_rows(t, Some(u), refreshing, width) =~= limit_rows(
        t,
        Some((UsageView { weekly: None, ..u })),
        refreshing,
        width,
    ) + limit_rows(t, Some((UsageView { session: None, ..u })), refreshing, width).skip(1));
}

// ---------------------------------------------------------------------------
// The sidebar.

/// The state of a session as a card shows it: a glyph, its words, and the
/// colour of both.
pub open spec fn card_says(
    card: TextView,
    glyph: Seq<char>,
    words: Seq<char>,
    color: Color,
) -> bool {
    &&& card[0][1].text == glyph
    &&& card[0][1].style.fg == Some(color)
    &&& card[1][3].text == words
    &&& card[1][3].style.fg == Some(color)
}

/// The entry of the list at the place of a session is the card of that session:
/// its name as the registry has it or else as it was started, its key, its
/// directory, how long it has been running, and its state. The selected one is
/// bold, and only that one.
pub proof fn law_a_card_shows_its_session(app: App, i: int)
    requires
        0 <= i < app.sessions@.len(),
    ensures
        ({
            let s = app.sessions@[i];
            let t = app.theme;
            let card = items_of(app)[i];
            &&& card.len() == 2 && card[0].len() == 6 && card[1].len() == 6
            &&& s.entry matches Some(e) ==> card[0][3].text == truncated(e.name@, 16)
            &&& s.entry is None ==> card[0][3].text == truncated(s.label@, 16)
            &&& card[0][3].style.fg == Some(t.text)
            &&& card[0][3].style.bold == (i == app.selected)
            &&& i < 9 ==> card[0][5].text == "F"@ + decimal((i + 1) as nat)
            &&& i >= 9 ==> card[0][5].text == ""@
            &&& card[0][5].style.fg == Some(t.faint)
            &&& card[1][1].text == truncated(s.cwd_label@, 12)
            &&& card[1][1].style.fg == Some(t.muted)
            &&& card[1][5].text == uptime_label(s.running_for@)
            &&& card[1][5].style.fg == Some(t.faint)
        }),
{
    assert(items_of(app)[i] == card_of(app, i));
}

/// A finished session shows how long its card stays: what the time since it
/// finished leaves of the time a card has. A live one shows what the registry
/// says it does, and one that is not there yet is starting.
pub proof fn law_a_card_says_what_its_session_does(app: App, i: int)
    requires
        0 <= i < app.sessions@.len(),
    ensures
        ({
            let s = app.sessions@[i];
            let t = app.theme;
            let l = app.labels;
            let card = items_of(app)[i];
            let ttl = app.finished_ttl@;
            &&& !s.is_alive ==> {
                &&& s.finished_for is None ==> card_says(card, "x"@, countdown_label(ttl), t.dead)
                &&& s.finished_for matches Some(d) ==> card_says(
                    card,
                    "x"@,
                    countdown_label(
                        if d@ < ttl {
                            (ttl - d@) as nat
                        } else {
                            0
                        },
                    ),
                    t.dead,
                )
            }
            &&& s.is_alive && s.entry is None ==> card_says(card, "-"@, l.starting@, t.muted)
            &&& s.is_alive ==> (s.entry matches Some(e) ==> {
                &&& e.status@ == "busy"@ ==> card_says(card, "*"@, l.busy@, t.busy)
                &&& e.status@ == "idle"@ ==> card_says(card, "o"@, l.idle@, t.idle)
                &&& e.status@ == "waiting"@ ==> card_says(card, "?"@, l.waiting@, t.ask)
                &&& e.status@ != "busy"@ && e.status@ != "idle"@ && e.status@ != "waiting"@
                    ==> card_says(card, "-"@, l.starting@, t.muted)
            })
        }),
{
    reveal_strlit("busy");
    reveal_strlit("idle");
    reveal_strlit("waiting");
    assert("busy"@.len() == 4 && "waiting"@.len() == 7);
    assert("busy"@[0] == 'b' && "idle"@[0] == 'i');
    assert(items_of(app)[i] == card_of(app, i));
}

/// A button is one row: a mark, what it is for, and its key, in their colours.
pub open spec fn button_says(
    button: TextView,
    mark: Seq<char>,
    what: Seq<char>,
    key: Seq<char>,
    colors: (Color, Color, Color),
) -> bool {
    &&& button.len() == 1 && button[0].len() == 4
    &&& button[0][0].text == mark && button[0][0].style.fg == Some(colors.0)
    &&& button[0][1].text == what && button[0][1].style.fg == Some(colors.1)
    &&& button[0][3].text == key && button[0][3].style.fg == Some(colors.2)
}

/// Below the cards stand, in this order and only when there is reason to: the
/// button for a new session with the first free key, while there are sessions
/// and a key is free; the button for a newer build; and the sessions of others
/// under their heading, each with its own name, directory and state.
pub proof fn law_the_list_goes_on_below_the_cards(app: App, j: int)
    requires
        0 <= j < app.foreign@.len(),
    ensures
        ({
            let n = app.sessions@.len();
            let new = if 0 < n < 9 {
                1nat
            } else {
                0
            };
            let update = if app.update_ready {
                1nat
            } else {
                0
            };
            let base = (n + new + update) as int;
            let items = items_of(app);
            let e = app.foreign@[j];
            let card = items[base + 1 + j];
            let t = app.theme;
            &&& items.len() == base + 1 + app.foreign@.len()
            &&& new == 1 ==> button_says(
                items[n as int],
                " + "@,
                "new session"@,
                "F"@ + decimal(n + 1),
                (t.accent, t.muted, t.faint),
            )
            &&& update == 1 ==> button_says(
                items[(n + new) as int],
                " ^ "@,
                "new build"@,
                "r"@,
                (t.ask, t.ask, t.ask),
            )
            &&& items[base][0][0].text == " --- UNREACHABLE"@
            &&& items[base][0][0].style.fg == Some(t.faint)
            &&& card[0][0].text == " ! "@ && card[0][0].style.fg == Some(t.faint)
            &&& card[1][1].style.fg == Some(t.faint)
            &&& card.len() == 2
            &&& card[0][1].text == truncated(e.name@, 20)
            &&& card[0][1].style.fg == Some(t.muted)
            &&& card[1][1].text == truncated(e.cwd_label@, 12)
            &&& e.is_waiting && e.waiting_for@.len() > 0 ==> card[1][3].text == truncated(
                app.labels.waiting@ + ": "@ + e.waiting_for@,
                12,
            )
            &&& e.is_waiting && e.waiting_for@.len() == 0 ==> card[1][3].text == truncated(
                app.labels.waiting@,
                12,
            )
            &&& !e.is_waiting ==> card[1][3].text == truncated(e.status@, 12)
            &&& card[1][3].style.dim
            &&& e.status@ == "busy"@ ==> card[1][3].style.fg == Some(t.busy)
            &&& e.status@ == "waiting"@ ==> card[1][3].style.fg == Some(t.ask)
            &&& e.status@ != "busy"@ && e.status@ != "waiting"@ ==> card[1][3].style.fg == Some(
                t.idle,
            )
        }),
{
    reveal_strlit("busy");
    reveal_strlit("waiting");
    assert("busy"@.len() == 4 && "waiting"@.len() == 7);
}

/// The same without sessions of others.
pub proof fn law_the_list_ends_in_its_buttons(app: App)
    requires
        app.foreign@.len() == 0,
        app.sessions@.len() > 0 || app.update_ready,
    ensures
        ({
            let n = app.sessions@.len();
            let new = if 0 < n < 9 {
                1nat
            } else {
                0
            };
            let items = items_of(app);
            let t = app.theme;
            &&& items.len() == n + new + (if app.update_ready {
                1nat
            } else {
                0
            })
            &&& new == 1 ==> button_says(
                items[n as int],
                " + "@,
                "new session"@,
                "F"@ + decimal(n + 1),
                (t.accent, t.muted, t.faint),
            )
            &&& app.update_ready ==> button_says(
                items[(n + new) as int],
                " ^ "@,
                "new build"@,
                "r"@,
                (t.ask, t.ask, t.ask),
            )
        }),
{
}

/// The frame of the sidebar names the assistant, counts our own sessions, and
/// has the accent on its border while it has the keyboard. The limits at its
/// foot are those of the account, as wide as the sidebar is inside, from their
/// title on.
pub proof fn law_the_sidebar_shows_the_fleet(app: App, area: Rect)
    ensures
        ({
            let s = sidebar_of(app, area);
            let t = app.theme;
            let limits = limit_rows(
                t,
                usage_view(app.usage),
                app.usage_refreshing,
                inside(area).width as nat,
            );
            &&& s.area == area
            &&& s.items == items_of(app)
            &&& s.frame.border == (if app.mode == Mode::Focus {
                t.faint
            } else {
                t.accent
            })
            &&& s.frame.title matches Some(title) && title[0].text == " "@ + in_capitals(
                app.assistant@,
            ) + " "@ && title[1].text == "FLEET "@ && title[0].style.fg == Some(t.accent)
                && title[0].style.bold && title[1].style.fg == Some(t.muted)
            &&& s.frame.bottom matches Some(bottom) && bottom[0].text == " "@ + decimal(
                app.sessions@.len(),
            ) + " of our own "@ && bottom[0].style.fg == Some(t.faint)
            &&& s.frame.bottom_right is None
            &&& s.highlight.bg == Some(t.surface) && s.highlight.fg == Some(t.text)
                && s.highlight.bold
            &&& s.limits.len() <= limits.len()
            &&& s.limits == limits.take(s.limits.len() as int)
            &&& limits.len() + 6 <= area.height ==> s.limits == limits
        }),
{
    let limits = limit_rows(
        app.theme,
        usage_view(app.usage),
        app.usage_refreshing,
        inside(area).width as nat,
    );
    assert(limits.take(limits.len() as int) =~= limits);
}

// ---------------------------------------------------------------------------
// The pane.

/// The pane shows the session whose card is highlighted in the sidebar: its
/// title begins with the label of that session and says whether it is over,
/// focused or only shown, its lower edge shows the directory and the size of
/// that session, and the accent is on its border while it has the keyboard.
pub proof fn law_the_pane_shows_the_highlighted_session(app: App, area: Rect, i: usize)
    requires
        sidebar_of(app, area).selected == Some(i),
        i < app.sessions@.len(),
    ensures
        ({
            let s = app.sessions@[i as int];
            let t = app.theme;
            pane_of(app) matches PaneView::Terminal { frame, cursor } && {
                let title = frame.title->0;
                let bottom = frame.bottom->0;
                let right = frame.bottom_right->0;
                &&& frame.title is Some && frame.bottom is Some && frame.bottom_right is Some
                &&& title.len() >= 2
                &&& title[0].text == " "@ + s.label@ + " "@
                &&& title[0].style.fg == Some(t.text) && title[0].style.bold
                &&& !s.is_alive ==> title[1].text == " FINISHED "@ && title[1].style.fg == Some(
                    t.dead,
                )
                &&& s.is_alive && app.mode == Mode::Focus ==> title[1].text
                    == " FOCUS — F10 leaves "@ && title[1].style.bg == Some(t.accent)
                &&& s.is_alive && app.mode != Mode::Focus ==> title[1].text == " VIEW ONLY "@
                    && title[1].style.fg == Some(t.muted)
                &&& bottom.len() == 1 && bottom[0].text == " "@ + shortened(s.cwd@, 44) + " "@
                &&& right.len() == 1 && right[0].text == " "@ + decimal(s.cols as nat) + "x"@
                    + decimal(s.rows as nat) + " "@
                &&& bottom[0].style.fg == Some(t.faint) && right[0].style.fg == Some(t.faint)
                &&& frame.border == (if app.mode == Mode::Focus {
                    t.accent
                } else {
                    t.faint
                })
                &&& cursor.fg == Some(t.accent)
            }
        }),
{
}

/// How many of the things worth saying on the frame come before a place.
pub open spec fn said(a: bool, b: bool, c: bool) -> int {
    2 + (if a {
        1int
    } else {
        0
    }) + (if b {
        1int
    } else {
        0
    }) + (if c {
        1int
    } else {
        0
    })
}

/// Behind that the title says, in this order and only when it is so, what the
/// highlighted session asks, that it has yet to be handed a prompt, how far it
/// is scrolled back, and how much is still being pasted into it. It says
/// nothing else.
pub proof fn law_the_title_says_what_the_session_wants(app: App, area: Rect, i: usize)
    requires
        sidebar_of(app, area).selected == Some(i),
        i < app.sessions@.len(),
    ensures
        ({
            let s = app.sessions@[i as int];
            let t = app.theme;
            let asks = s.entry matches Some(e) && e.is_waiting;
            let pending = s.prompt_pending;
            let back = s.scrollback > 0;
            let pasting = s.queued_input > 0;
            pane_of(app) matches PaneView::Terminal { frame, .. } && {
                let title = frame.title->0;
                let a = said(false, false, false);
                let b = said(asks, false, false);
                let c = said(asks, pending, false);
                let d = said(asks, pending, back);
                &&& title.len() == d + (if pasting {
                    1int
                } else {
                    0
                })
                &&& asks ==> (s.entry matches Some(e) ==> {
                    &&& e.waiting_for@.len() == 0 ==> title[a].text == " QUESTION "@
                    &&& e.waiting_for@.len() > 0 ==> title[a].text == " QUESTION — "@
                        + e.waiting_for@ + " "@
                    &&& title[a].style.bg == Some(t.ask)
                })
                &&& pending ==> title[b].text == " understand project… "@ && title[b].style.fg
                    == Some(t.ask)
                &&& back ==> title[c].text == " ^"@ + decimal(s.scrollback as nat) + " "@
                    && title[c].style.fg == Some(t.busy)
                &&& pasting ==> title[d].text == " pasting "@ + bytes_label(s.queued_input as nat)
                    + " "@ && title[d].style.fg == Some(t.busy)
            }
        }),
{
}

/// Where no session is highlighted, the pane says what to do.
pub proof fn law_a_pane_without_a_session_is_a_hint(app: App)
    ensures
        (pane_of(app) is Hint) == (app.selected >= app.sessions@.len()),
        pane_of(app) matches PaneView::Hint { lines, frame } ==> {
            let t = app.theme;
            &&& frame.border == t.faint
            &&& frame.title is None && frame.bottom is None && frame.bottom_right is None
            &&& lines.len() == 6
            &&& lines[1][0].text == "No sessions running."@ && lines[1][0].style.fg == Some(t.muted)
            &&& key_says(t, lines[3], "n"@, "  new session in a directory you pick"@)
            &&& key_says(t, lines[4], "?"@, "  keyboard shortcuts"@)
            &&& key_says(t, lines[5], "q"@, "  quit"@)
        },
{
}

/// A row says what a key does.
pub open spec fn key_says(t: Theme, row: LineView, key: Seq<char>, what: Seq<char>) -> bool {
    &&& row.len() == 2
    &&& row[0].text == key && row[0].style.fg == Some(t.accent) && row[0].style.bold
    &&& row[1].text == what && row[1].style.fg == Some(t.muted)
}

// ---------------------------------------------------------------------------
// The dialogs.

/// The question about killing names the session whose card is highlighted.
pub proof fn law_the_highlighted_session_is_the_one_killed(
    app: App,
    area: Rect,
    full: Rect,
    i: usize,
)
    requires
        sidebar_of(app, area).selected == Some(i),
        i < app.sessions@.len(),
    ensures
        kill_dialog(app, full).lines[1][0].text == "  kill session "@,
        kill_dialog(app, full).lines[1][1].text == app.sessions@[i as int].label@,
        kill_dialog(app, full).lines[1][1].style.fg == Some(app.theme.accent),
        kill_dialog(app, full).lines[1][1].style.bold,
        kill_dialog(app, full).lines[1][2].text == "?  "@,
        kill_dialog(app, full).lines[2][0].text == "  y = yes      n / esc = no"@,
        kill_dialog(app, full).lines[2][0].style.fg == Some(app.theme.muted),
        kill_dialog(app, full).frame.border == app.theme.dead,
        !kill_dialog(app, full).wrap,
{
}

/// The sessions a restart costs are counted one by one: none of none, one for
/// each that is alive, and nothing for one that is not.
pub proof fn law_a_restart_costs_the_live_sessions(
    app: App,
    full: Rect,
    sessions: Seq<Session>,
    one: Session,
)
    ensures
        alive(Seq::empty()) == 0,
        alive(sessions.push(one)) == alive(sessions) + (if one.is_alive {
            1nat
        } else {
            0
        }),
        restart_dialog(app, full).lines[2][1].text == decimal(alive(app.sessions@)),
        restart_dialog(app, full).lines[2][1].style.fg == Some(app.theme.dead),
        restart_dialog(app, full).lines[2][1].style.bold,
        restart_dialog(app, full).frame.border == app.theme.ask,
        !restart_dialog(app, full).wrap,
{
    assert(sessions.push(one).drop_last() =~= sessions);
}

/// The form shows what is typed, and below it the recent directories in order,
/// twelve at most, each under its own name with its own path. The cursor marks
/// the row it stands on and no other: the input at zero, the directories from
/// one on.
pub proof fn law_the_form_shows_the_recent_directories(t: Theme, form: Form, full: Rect, i: int)
    requires
        0 <= i < form.recent@.len(),
        i < 12,
    ensures
        ({
            let d = form_dialog(t, form, full);
            let r = form.recent@[i];
            let row = d.lines[4 + i];
            let chosen = form.cursor == i + 1;
            &&& d.lines.len() == 4 + (if form.recent@.len() < 12 {
                form.recent@.len()
            } else {
                12
            })
            &&& d.frame.border == t.accent && !d.wrap
            &&& d.frame.title matches Some(title) && title[0].text == " new session "@
                && title[0].style.fg == Some(t.accent) && title[0].style.bold
            &&& d.lines[0][0].text == " working directory:"@
            &&& d.lines[3][0].text == " recent projects:"@
            &&& d.lines[1][1].text == form.input@
            &&& d.lines[1][1].style.fg == Some(
                if form.cursor == 0 {
                    t.text
                } else {
                    t.muted
                },
            )
            &&& row[0].style.fg == Some(t.accent) && row[1].style.fg == Some(t.text)
            &&& d.lines[1][1].style.underlined == (form.cursor == 0)
            &&& d.lines[1][2].text == (if form.cursor == 0 {
                "_"@
            } else {
                ""@
            })
            &&& row.len() == 3
            &&& row[0].text == (if chosen {
                " > "@
            } else {
                "   "@
            })
            &&& r.file_name matches Some(name) ==> row[1].text == align_left(
                truncated(name@, 22),
                22,
            )
            &&& r.file_name is None ==> row[1].text == align_left(truncated(r.full@, 22), 22)
            &&& row[1].style.bold == chosen
            &&& row[2].text == shortened(r.full@, 36)
            &&& row[2].style.fg == Some(t.faint)
        }),
{
    reveal_strlit(" > ");
    reveal_strlit("   ");
}

/// The picker shows the past conversations in order, twenty at most, each with
/// its own directory, summary and age, and marks the one the cursor stands on.
pub proof fn law_the_picker_shows_the_conversations(
    t: Theme,
    picker: Picker,
    full: Rect,
    now: int,
    i: int,
)
    requires
        0 <= i < picker.items@.len(),
        i < 20,
    ensures
        ({
            let d = picker_dialog(t, picker, full, now);
            let c = picker.items@[i];
            let row = d.lines[1 + i];
            let chosen = picker.cursor == i;
            let room = if d.area.width < 29 {
                0
            } else {
                (d.area.width - 29) as nat
            };
            &&& d.lines.len() == 1 + (if picker.items@.len() < 20 {
                picker.items@.len()
            } else {
                20
            })
            &&& d.frame.border == t.accent && !d.wrap
            &&& d.frame.title matches Some(title) && title[0].text == " resume a conversation "@
            &&& d.lines[0][0].text == " enter resumes, esc closes"@
            &&& row.len() == 4
            &&& row[0].style.fg == Some(t.accent) && row[1].style.fg == Some(t.muted)
            &&& row[2].style.fg == Some(t.text) && row[3].style.fg == Some(t.faint)
            &&& row[0].text == (if chosen {
                " > "@
            } else {
                "   "@
            })
            &&& row[1].text == align_left(truncated(c.cwd_label@, 17), 18)
            &&& row[2].text == align_left(truncated(c.summary@, room), room)
            &&& row[2].style.bold == chosen
            &&& row[3].text == " "@ + align_right(age_label(now, c.modified@), 4)
        }),
{
}

/// The question about a directory shows the path that is to be created.
pub proof fn law_the_question_shows_the_path(t: Theme, path: Seq<char>, full: Rect)
    ensures
        mkdir_dialog(t, path, full).lines[2][0].text == "  "@ + shortened(path, 58),
        mkdir_dialog(t, path, full).lines[2][0].style.fg == Some(t.accent),
        mkdir_dialog(t, path, full).lines[2][0].style.bold,
        mkdir_dialog(t, path, full).lines[1][0].text == "  directory does not exist:"@,
        mkdir_dialog(t, path, full).lines[1][0].style.fg == Some(t.text),
        mkdir_dialog(t, path, full).frame.border == t.accent,
        !mkdir_dialog(t, path, full).wrap,
{
}

// ---------------------------------------------------------------------------
// The status bar.

/// A message stands in the status bar as it is, in place of the hints.
pub proof fn law_a_message_takes_the_place_of_the_hints(app: App)
    ensures
        app.status matches Some(msg) ==> {
            &&& status_row(app).len() == 2
            &&& status_row(app)[1].text == msg@
            &&& status_row(app)[1].style.fg == Some(app.theme.text)
        },
        app.status is None ==> status_row(app) == hint_row(
            app,
            hints_of(app.mode, app.update_ready),
            hints_of(app.mode, app.update_ready).len(),
        ),
{
}

/// The hints stand in a row in their order, each key in the accent with what it
/// does behind it. The first key of a focused session stands out from the rest.
pub proof fn law_the_hints_stand_in_their_order(
    app: App,
    hints: Seq<(Seq<char>, Seq<char>)>,
    n: nat,
    i: int,
)
    requires
        n <= hints.len(),
        0 <= i < n,
        forall|j: int| 0 <= j < n ==> (#[trigger] hints[j]).1.len() > 0,
    ensures
        ({
            let row = hint_row(app, hints, n);
            let t = app.theme;
            let stands_out = app.mode == Mode::Focus && i == 0;
            &&& row.len() == 1 + 3 * n
            &&& row[1 + 3 * i].style.bold
            &&& stands_out ==> row[1 + 3 * i].text == " "@ + hints[i].0 + " "@ && row[1 + 3
                * i].style.bg == Some(t.accent) && row[1 + 3 * i].style.fg == Some(t.surface)
            &&& !stands_out ==> row[1 + 3 * i].text == hints[i].0 && row[1 + 3 * i].style.fg
                == Some(t.accent) && row[1 + 3 * i].style.bg is None
            &&& row[2 + 3 * i].text == " "@ + hints[i].1
            &&& row[2 + 3 * i].style.fg == Some(t.muted)
            &&& row[3 + 3 * i].text == "   "@
        }),
    decreases n,
{
    lemma_hint_row_len(app, hints, n);
    lemma_hint_row_len(app, hints, (n - 1) as nat);
    assert(hints[n - 1].1.len() > 0);
    let before = hint_row(app, hints, (n - 1) as nat);
    let own = hint_spans(app, n - 1, hints[n - 1]);
    assert(hint_row(app, hints, n) == before + own);
    if i < n - 1 {
        law_the_hints_stand_in_their_order(app, hints, (n - 1) as nat, i);
        assert((before + own)[1 + 3 * i] == before[1 + 3 * i]);
        assert((before + own)[2 + 3 * i] == before[2 + 3 * i]);
        assert((before + own)[3 + 3 * i] == before[3 + 3 * i]);
    } else {
        assert((before + own)[1 + 3 * i] == own[0]);
        assert((before + own)[2 + 3 * i] == own[1]);
        assert((before + own)[3 + 3 * i] == own[2]);
    }
}

proof fn lemma_hint_row_len(app: App, hints: Seq<(Seq<char>, Seq<char>)>, n: nat)
    requires
        n <= hints.len(),
        forall|j: int| 0 <= j < n ==> (#[trigger] hints[j]).1.len() > 0,
    ensures
        hint_row(app, hints, n).len() == 1 + 3 * n,
    decreases n,
{
    if n > 0 {
        lemma_hint_row_len(app, hints, (n - 1) as nat);
        assert(hints[n - 1].1.len() > 0);
    }
}

// ---------------------------------------------------------------------------
// The screen.

/// Each part of the screen is drawn where the screen has it, and the mode says
/// which dialogs stand over it: the form and the question that belongs to it,
/// one on top of the other, or the one the mode is about, or none.
pub proof fn law_the_mode_decides_the_dialogs(app: App, full: Rect)
    ensures
        ({
            let p = picture_of(app, full);
            let d = p.dialogs;
            let t = app.theme;
            &&& p.sidebar == sidebar_of(app, parts(full).sidebar)
            &&& p.pane_area == parts(full).pane
            &&& p.pane == pane_of(app)
            &&& p.status_area == parts(full).status
            &&& p.status == status_row(app)
            &&& d == dialogs_of(app, full)
            &&& app.mode == Mode::Nav || app.mode == Mode::Focus || app.mode == Mode::Understand
                ==> d.len() == 0
            &&& app.mode == Mode::Help ==> d.len() == 1 && d[0] == help_dialog(
                t,
                app.assistant@,
                full,
            )
            &&& app.mode == Mode::ConfirmKill ==> d.len() == 1 && d[0] == kill_dialog(app, full)
            &&& app.mode == Mode::ConfirmRestart ==> d.len() == 1 && d[0] == restart_dialog(
                app,
                full,
            )
            &&& app.mode == Mode::NewSession && app.form is None ==> d.len() == 0
            &&& app.mode == Mode::Resume && app.resume is None ==> d.len() == 0
            &&& app.mode == Mode::Resume ==> (app.resume matches Some(picker) ==> d.len() == 1
                && d[0] == picker_dialog(t, picker, full, app.now@))
            &&& app.mode == Mode::NewSession ==> (app.form matches Some(form) ==> d.len() == 1
                && d[0] == form_dialog(t, form, full))
            &&& app.mode == Mode::ConfirmMkdir ==> {
                &&& app.form matches Some(form) ==> d.len() >= 1 && d[0] == form_dialog(
                    t,
                    form,
                    full,
                )
                &&& app.pending_mkdir matches Some(path) ==> d.len() >= 1 && d.last()
                    == mkdir_dialog(t, path@, full)
                &&& d.len() == (if app.form is Some {
                    1nat
                } else {
                    0
                }) + (if app.pending_mkdir is Some {
                    1nat
                } else {
                    0
                })
            }
        }),
{
}

/// The form and the picker are as high as what they show, on a screen that has
/// the room: the form has its rows and its border, and the picker a row more.
pub proof fn law_a_list_is_as_high_as_what_it_shows(
    t: Theme,
    form: Form,
    picker: Picker,
    full: Rect,
    now: int,
)
    requires
        full.height >= 24,
        form.recent@.len() < 0x1_0000,
        picker.items@.len() < 0x1_0000,
    ensures
        form_dialog(t, form, full).area.height == form_dialog(t, form, full).lines.len() + 2,
        picker_dialog(t, picker, full, now).area.height == picker_dialog(
            t,
            picker,
            full,
            now,
        ).lines.len() + 3,
{
}

} // verus!
