//! The dialogs that stand in the middle of the screen.

use vstd::prelude::*;

use crate::format::{age_label, fmt_age, law_a_shortened_path_fits, law_a_truncated_text_fits,
    shorten_path, shortened, truncate, truncated};
use crate::layout::{centered, has_middle, least, less, middle, Rect};
use crate::model::{chosen, App, Form, Picker, Recent, Session};
use crate::paint::{bare, blank, colored, lemma_row_width_push, one, plain, row_width, span, strong,
    titled, Frame, FrameView, Line, LineView, SpanView, Style, Text, TextView};
use crate::text::{align_left, align_right, concat, decimal, number, to_the_left, to_the_right};
use crate::theme;
use crate::theme::Theme;
use crate::time::{seconds_between, Moment};

verus! {

/// A frame around lines of text, over a cleared area.
pub struct Dialog {
    pub area: Rect,
    pub frame: Frame,
    pub lines: Text,
    /// Lines too long for the dialog go on in the next row.
    pub wrap: bool,
}

/// A frame around lines of text, over a cleared area.
pub struct DialogView {
    pub area: Rect,
    pub frame: FrameView,
    pub lines: TextView,
    pub wrap: bool,
}

impl Dialog {
    pub open spec fn view(&self) -> DialogView {
        DialogView {
            area: self.area,
            frame: self.frame.view(),
            lines: self.lines.view(),
            wrap: self.wrap,
        }
    }
}

/// How many rows a list of `len` entries asks for, when it shows `most` of them
/// and needs `more` rows around them. The length is counted in sixteen bits.
pub open spec fn list_height(len: nat, most: u16, more: u16) -> u16 {
    (least((len % 0x1_0000) as int, most as int) + more) as u16
}

/// How many rows a list of `len` entries asks for.
pub fn height_for(len: usize, most: u16, more: u16) -> (r: u16)
    requires
        most + more <= u16::MAX,
    ensures
        r == list_height(len as nat, most, more),
{
    let count: u16 = (len % 0x1_0000) as u16;
    let shown: u16 = if count < most {
        count
    } else {
        most
    };
    shown + more
}

/// The marker in front of an entry.
pub open spec fn marker(selected: bool) -> Seq<char> {
    if selected {
        " > "@
    } else {
        "   "@
    }
}

/// The marker in front of an entry.
fn mark(selected: bool) -> (r: &'static str)
    ensures
        r@ == marker(selected),
{
    if selected {
        " > "
    } else {
        "   "
    }
}

/// How the main text of an entry looks.
pub open spec fn entry_style(t: Theme, selected: bool) -> Style {
    if selected {
        strong(t.text)
    } else {
        colored(t.text)
    }
}

/// How the main text of an entry looks.
fn style_of(t: &Theme, selected: bool) -> (r: Style)
    ensures
        r == entry_style(*t, selected),
{
    if selected {
        Style::strong(theme::text(t))
    } else {
        Style::colored(theme::text(t))
    }
}

// ---------------------------------------------------------------------------
// A new session.

/// The most recent directories that the form shows.
pub const RECENT_SHOWN: usize = 12;

/// The row of the working directory, with a cursor while it is being edited.
pub open spec fn input_row(t: Theme, form: Form) -> LineView {
    seq![
        span(" > "@, colored(t.accent)),
        span(
            form.input@,
            if form.cursor == 0 {
                (Style { underlined: true, ..colored(t.text) })
            } else {
                colored(t.muted)
            },
        ),
        span(
            if form.cursor == 0 {
                "_"@
            } else {
                ""@
            },
            colored(t.accent),
        ),
    ]
}

/// What a directory is called: its last component, or the whole path where
/// there is none.
pub open spec fn recent_label(r: Recent) -> Seq<char> {
    match r.file_name {
        Some(n) => n@,
        None => r.full@,
    }
}

/// The row of a recent directory.
pub open spec fn recent_row(t: Theme, form: Form, i: int) -> LineView {
    let r = form.recent@[i];
    let selected = form.cursor == i + 1;
    seq![
        span(marker(selected), colored(t.accent)),
        span(align_left(truncated(recent_label(r), 22), 22), entry_style(t, selected)),
        span(shortened(r.full@, 36), colored(t.faint)),
    ]
}

/// The rows of the form.
pub open spec fn form_rows(t: Theme, form: Form) -> TextView {
    seq![
        one(" working directory:"@, colored(t.muted)),
        input_row(t, form),
        blank(),
        one(" recent projects:"@, colored(t.muted)),
    ] + Seq::new(
        least(form.recent@.len() as int, RECENT_SHOWN as int) as nat,
        |i: int| recent_row(t, form, i),
    )
}

/// The form for a new session.
pub open spec fn form_dialog(t: Theme, form: Form, full: Rect) -> DialogView {
    DialogView {
        area: middle(70, list_height(form.recent@.len(), 12, 6), full),
        frame: titled(t.accent, one(" new session "@, strong(t.accent))),
        lines: form_rows(t, form),
        wrap: false,
    }
}

/// The row of a recent directory.
fn recent_line(t: &Theme, form: &Form, i: usize) -> (r: Line)
    requires
        i < form.recent@.len(),
    ensures
        r.view() == recent_row(*t, *form, i as int),
{
    let recent = &form.recent[i];
    let selected: bool = form.cursor > 0 && form.cursor - 1 == i;
    let label = match &recent.file_name {
        Some(n) => truncate(n.as_str(), 22),
        None => truncate(recent.full.as_str(), 22),
    };
    Line::new().with(mark(selected), Style::colored(theme::accent(t))).with(
        to_the_left(label.as_str(), 22).as_str(),
        style_of(t, selected),
    ).with(shorten_path(recent.full.as_str(), 36).as_str(), Style::colored(theme::faint(t)))
}

/// The rows of the form.
fn form_text(t: &Theme, form: &Form) -> (r: Text)
    ensures
        r.view() == form_rows(*t, *form),
{
    let editing = form.cursor == 0;
    let input = Line::new().with(" > ", Style::colored(theme::accent(t))).with(
        form.input.as_str(),
        if editing {
            Style::colored(theme::text(t)).underlined()
        } else {
            Style::colored(theme::muted(t))
        },
    ).with(
        if editing {
            "_"
        } else {
            ""
        },
        Style::colored(theme::accent(t)),
    );
    assert(input.view() =~= input_row(*t, *form));
    let mut lines = Text::new().one(" working directory:", Style::colored(theme::muted(t))).with(
        input,
    ).blank().one(" recent projects:", Style::colored(theme::muted(t)));
    let shown: usize = if form.recent.len() < RECENT_SHOWN {
        form.recent.len()
    } else {
        RECENT_SHOWN
    };
    let ghost rows = form_rows(*t, *form);
    assert(lines.view() =~= rows.take(4));
    let mut i: usize = 0;
    while i < shown
        invariant
            i <= shown <= form.recent@.len(),
            shown <= RECENT_SHOWN,
            rows == form_rows(*t, *form),
            rows.len() == 4 + shown,
            lines.view() == rows.take(4 + i),
        decreases shown - i,
    {
        lines.push(recent_line(t, form, i));
        assert(rows[4 + i] == recent_row(*t, *form, i as int));
        assert(rows.take(4 + i).push(rows[4 + i]) =~= rows.take(4 + i + 1));
        i += 1;
    }
    assert(rows.take(rows.len() as int) =~= rows);
    lines
}

/// The form for a new session, when there is one.
pub fn draw_new_session(app: &App, full: Rect) -> (r: Option<Dialog>)
    requires
        app.form matches Some(form) ==> has_middle(
            70,
            list_height(form.recent@.len(), 12, 6),
            full,
        ),
    ensures
        match app.form {
            Some(form) => r matches Some(d) && d.view() == form_dialog(app.theme, form, full),
            None => r is None,
        },
{
    let t = &app.theme;
    match &app.form {
        None => None,
        Some(form) => {
            let height: u16 = height_for(form.recent.len(), 12, 6);
            Some(
                Dialog {
                    area: centered(70, height, full),
                    frame: Frame::titled(
                        theme::accent(t),
                        " new session ",
                        Style::strong(theme::accent(t)),
                    ),
                    lines: form_text(t, form),
                    wrap: false,
                },
            )
        },
    }
}

// ---------------------------------------------------------------------------
// Past conversations.

/// The most conversations that the picker shows.
pub const CONVERSATIONS_SHOWN: usize = 20;

/// The columns of a summary: it takes whatever the fixed columns leave, so a
/// narrow terminal shortens the prompt rather than pushing the age off the
/// edge.
pub open spec fn summary_width(area: Rect) -> nat {
    less(less(area.width as int, 2), 3int + 18 + 1 + 4 + 1) as nat
}

/// The row of a conversation: where it was held, what it was asked for, and
/// how long ago it was last alive.
pub open spec fn conversation_row(
    t: Theme,
    picker: Picker,
    i: int,
    summary: nat,
    now: int,
) -> LineView {
    let c = picker.items@[i];
    let selected = picker.cursor == i;
    seq![
        span(marker(selected), colored(t.accent)),
        span(align_left(truncated(c.cwd_label@, 17), 18), colored(t.muted)),
        span(align_left(truncated(c.summary@, summary), summary), entry_style(t, selected)),
        span(" "@ + align_right(age_label(now, c.modified@), 4), colored(t.faint)),
    ]
}

/// The rows of the picker.
pub open spec fn picker_rows(t: Theme, picker: Picker, summary: nat, now: int) -> TextView {
    seq![one(" enter resumes, esc closes"@, colored(t.faint))] + Seq::new(
        least(picker.items@.len() as int, CONVERSATIONS_SHOWN as int) as nat,
        |i: int| conversation_row(t, picker, i, summary, now),
    )
}

/// The list of past conversations.
pub open spec fn picker_dialog(t: Theme, picker: Picker, full: Rect, now: int) -> DialogView {
    let area = middle(92, list_height(picker.items@.len(), 20, 4), full);
    DialogView {
        area,
        frame: titled(t.accent, one(" resume a conversation "@, strong(t.accent))),
        lines: picker_rows(t, picker, summary_width(area), now),
        wrap: false,
    }
}

/// The row of a conversation.
fn conversation_line(t: &Theme, picker: &Picker, i: usize, summary: usize, now: Moment) -> (r: Line)
    requires
        i < picker.items@.len(),
    ensures
        r.view() == conversation_row(*t, *picker, i as int, summary as nat, now@),
{
    let c = &picker.items[i];
    let selected: bool = picker.cursor == i;
    let place = to_the_left(truncate(c.cwd_label.as_str(), 17).as_str(), 18);
    let what = to_the_left(truncate(c.summary.as_str(), summary).as_str(), summary);
    let age = concat(" ", to_the_right(fmt_age(now, c.modified).as_str(), 4).as_str());
    Line::new().with(mark(selected), Style::colored(theme::accent(t))).with(
        place.as_str(),
        Style::colored(theme::muted(t)),
    ).with(what.as_str(), style_of(t, selected)).with(
        age.as_str(),
        Style::colored(theme::faint(t)),
    )
}

/// The rows of the picker.
fn picker_text(t: &Theme, picker: &Picker, summary: usize, now: Moment) -> (r: Text)
    ensures
        r.view() == picker_rows(*t, *picker, summary as nat, now@),
{
    let mut lines = Text::new().one(" enter resumes, esc closes", Style::colored(theme::faint(t)));
    let shown: usize = if picker.items.len() < CONVERSATIONS_SHOWN {
        picker.items.len()
    } else {
        CONVERSATIONS_SHOWN
    };
    let ghost rows = picker_rows(*t, *picker, summary as nat, now@);
    assert(lines.view() =~= rows.take(1));
    let mut i: usize = 0;
    while i < shown
        invariant
            i <= shown <= picker.items@.len(),
            shown <= CONVERSATIONS_SHOWN,
            rows == picker_rows(*t, *picker, summary as nat, now@),
            rows.len() == 1 + shown,
            lines.view() == rows.take(1 + i),
        decreases shown - i,
    {
        lines.push(conversation_line(t, picker, i, summary, now));
        assert(rows[1 + i] == conversation_row(*t, *picker, i as int, summary as nat, now@));
        assert(rows.take(1 + i).push(rows[1 + i]) =~= rows.take(1 + i + 1));
        i += 1;
    }
    assert(rows.take(rows.len() as int) =~= rows);
    lines
}

/// The list of past conversations, when it is open.
pub fn draw_resume(app: &App, full: Rect) -> (r: Option<Dialog>)
    requires
        app.resume matches Some(picker) ==> has_middle(
            92,
            list_height(picker.items@.len(), 20, 4),
            full,
        ),
    ensures
        match app.resume {
            Some(picker) => r matches Some(d) && d.view() == picker_dialog(
                app.theme,
                picker,
                full,
                app.now@,
            ),
            None => r is None,
        },
{
    let t = &app.theme;
    match &app.resume {
        None => None,
        Some(picker) => {
            let height: u16 = height_for(picker.items.len(), 20, 4);
            let area = centered(92, height, full);
            let fixed: u16 = 2 + 3 + 18 + 1 + 4 + 1;
            let summary: usize = if area.width < fixed {
                0
            } else {
                (area.width - fixed) as usize
            };
            Some(
                Dialog {
                    area,
                    frame: Frame::titled(
                        theme::accent(t),
                        " resume a conversation ",
                        Style::strong(theme::accent(t)),
                    ),
                    lines: picker_text(t, picker, summary, app.now),
                    wrap: false,
                },
            )
        },
    }
}

// ---------------------------------------------------------------------------
// Questions.

/// The question whether to kill the selected session.
pub open spec fn kill_dialog(app: App, full: Rect) -> DialogView {
    let t = app.theme;
    let label = match chosen(app) {
        Some(s) => s.label@,
        None => ""@,
    };
    DialogView {
        area: middle(46, 5, full),
        frame: bare(t.dead),
        lines: seq![
            blank(),
            seq![
                span("  kill session "@, colored(t.text)),
                span(label, strong(t.accent)),
                span("?  "@, colored(t.text)),
            ],
            one("  y = yes      n / esc = no"@, colored(t.muted)),
        ],
        wrap: false,
    }
}

/// The question whether to kill the selected session.
pub fn draw_confirm_kill(app: &App, full: Rect) -> (r: Dialog)
    requires
        has_middle(46, 5, full),
    ensures
        r.view() == kill_dialog(*app, full),
{
    let t = &app.theme;
    let label = match app.selected_session() {
        Some(s) => s.label.as_str(),
        None => "",
    };
    let question = Line::new().with("  kill session ", Style::colored(theme::text(t))).with(
        label,
        Style::strong(theme::accent(t)),
    ).with("?  ", Style::colored(theme::text(t)));
    assert(question.view() =~= kill_dialog(*app, full).lines[1]);
    let lines = Text::new().blank().with(question).one(
        "  y = yes      n / esc = no",
        Style::colored(theme::muted(t)),
    );
    assert(lines.view() =~= kill_dialog(*app, full).lines);
    Dialog {
        area: centered(46, 5, full),
        frame: Frame::bare(theme::dead(t)),
        lines,
        wrap: false,
    }
}

/// How many sessions are alive.
pub open spec fn alive(sessions: Seq<Session>) -> nat
    decreases sessions.len(),
{
    if sessions.len() == 0 {
        0
    } else {
        alive(sessions.drop_last()) + if sessions.last().is_alive {
            1nat
        } else {
            0
        }
    }
}

/// The question whether to restart into the new build, and what it costs.
pub open spec fn restart_dialog(app: App, full: Rect) -> DialogView {
    let t = app.theme;
    DialogView {
        area: middle(62, 8, full),
        frame: bare(t.ask),
        lines: seq![
            blank(),
            one("  restart the fleet into the new build"@, colored(t.text)),
            seq![
                span("  "@, plain()),
                span(decimal(alive(app.sessions@)), strong(t.dead)),
                span(
                    " sessions will die — a child does not outlive the owner"@,
                    colored(t.muted),
                ),
            ],
            one(
                "  of its pseudoconsole. They come back in the same directories."@,
                colored(t.muted),
            ),
            blank(),
            one("  y = restart      n / esc = leave it"@, colored(t.muted)),
        ],
        wrap: false,
    }
}

/// How many sessions are alive.
fn count_alive(app: &App) -> (r: u64)
    ensures
        r == alive(app.sessions@),
{
    let mut live: u64 = 0;
    let mut i: usize = 0;
    while i < app.sessions.len()
        invariant
            i <= app.sessions@.len(),
            live <= i,
            live == alive(app.sessions@.take(i as int)),
        decreases app.sessions@.len() - i,
    {
        assert(app.sessions@.take(i + 1).drop_last() =~= app.sessions@.take(i as int));
        if app.sessions[i].is_alive {
            live += 1;
        }
        i += 1;
    }
    assert(app.sessions@.take(app.sessions@.len() as int) =~= app.sessions@);
    live
}

/// The question whether to restart into the new build, and what it costs.
pub fn draw_confirm_restart(app: &App, full: Rect) -> (r: Dialog)
    requires
        has_middle(62, 8, full),
    ensures
        r.view() == restart_dialog(*app, full),
{
    let t = &app.theme;
    let muted = Style::colored(theme::muted(t));
    let cost = Line::new().raw("  ").with(
        number(count_alive(app)).as_str(),
        Style::strong(theme::dead(t)),
    ).with(" sessions will die — a child does not outlive the owner", muted);
    assert(cost.view() =~= restart_dialog(*app, full).lines[2]);
    let lines = Text::new().blank().one(
        "  restart the fleet into the new build",
        Style::colored(theme::text(t)),
    ).with(cost).one(
        "  of its pseudoconsole. They come back in the same directories.",
        muted,
    ).blank().one("  y = restart      n / esc = leave it", muted);
    assert(lines.view() =~= restart_dialog(*app, full).lines);
    Dialog { area: centered(62, 8, full), frame: Frame::bare(theme::ask(t)), lines, wrap: false }
}

/// The question whether to create a directory.
pub open spec fn mkdir_dialog(t: Theme, path: Seq<char>, full: Rect) -> DialogView {
    DialogView {
        area: middle(64, 7, full),
        frame: bare(t.accent),
        lines: seq![
            blank(),
            one("  directory does not exist:"@, colored(t.text)),
            one("  "@ + shortened(path, 58), strong(t.accent)),
            blank(),
            one("  create it?   y / enter = yes      n / esc = no"@, colored(t.muted)),
        ],
        wrap: false,
    }
}

/// The question whether to create a directory, when one is to be created.
pub fn draw_confirm_mkdir(app: &App, full: Rect) -> (r: Option<Dialog>)
    requires
        app.pending_mkdir is Some ==> has_middle(64, 7, full),
    ensures
        match app.pending_mkdir {
            Some(path) => r matches Some(d) && d.view() == mkdir_dialog(app.theme, path@, full),
            None => r is None,
        },
{
    let t = &app.theme;
    match &app.pending_mkdir {
        None => None,
        Some(path) => {
            let shown = concat("  ", shorten_path(path.as_str(), 58).as_str());
            let lines = Text::new().blank().one(
                "  directory does not exist:",
                Style::colored(theme::text(t)),
            ).one(shown.as_str(), Style::strong(theme::accent(t))).blank().one(
                "  create it?   y / enter = yes      n / esc = no",
                Style::colored(theme::muted(t)),
            );
            assert(lines.view() =~= mkdir_dialog(*t, path@, full).lines);
            Some(
                Dialog {
                    area: centered(64, 7, full),
                    frame: Frame::bare(theme::accent(t)),
                    lines,
                    wrap: false,
                },
            )
        },
    }
}

// ---------------------------------------------------------------------------
// What holds of the dialogs as a whole.

proof fn lemma_row_of_three(c: LineView)
    requires
        c.len() == 3,
    ensures
        row_width(c) == c[0].text.len() + c[1].text.len() + c[2].text.len(),
{
    let e = Seq::<SpanView>::empty();
    lemma_row_width_push(e, c[0]);
    lemma_row_width_push(e.push(c[0]), c[1]);
    lemma_row_width_push(e.push(c[0]).push(c[1]), c[2]);
    assert(c =~= e.push(c[0]).push(c[1]).push(c[2]));
}

/// The row of a recent directory fits the form, however long its path is, and
/// the paths stand below each other.
pub proof fn law_a_recent_row_fits_the_form(t: Theme, form: Form, i: int)
    requires
        0 <= i < form.recent@.len(),
    ensures
        row_width(recent_row(t, form, i)) <= 70 - 2,
        recent_row(t, form, i)[0].text.len() + recent_row(t, form, i)[1].text.len() == 25,
{
    let r = form.recent@[i];
    reveal_strlit(" > ");
    reveal_strlit("   ");
    law_a_truncated_text_fits(recent_label(r), 22);
    law_a_shortened_path_fits(r.full@, 36);
    lemma_row_of_three(recent_row(t, form, i));
}

/// A narrow terminal shortens the summary of a conversation rather than pushing
/// its age off the edge: the row fits the dialog as long as its fixed columns
/// do, for every conversation of the last thousand days.
pub proof fn law_the_age_stays_inside_the_dialog(
    t: Theme,
    picker: Picker,
    i: int,
    area: Rect,
    now: int,
)
    requires
        0 <= i < picker.items@.len(),
        area.width >= 2 + 3 + 18 + 1 + 4 + 1,
        seconds_between(picker.items@[i].modified@, now) < 1000 * 86_400,
    ensures
        row_width(conversation_row(t, picker, i, summary_width(area), now)) <= area.width - 2,
{
    let c = picker.items@[i];
    let summary = summary_width(area);
    reveal_strlit(" > ");
    reveal_strlit("   ");
    reveal_strlit(" ");
    reveal_strlit("now");
    law_a_truncated_text_fits(c.cwd_label@, 17);
    law_a_truncated_text_fits(c.summary@, summary);
    let secs = seconds_between(c.modified@, now);
    if 60 <= secs < 3600 {
        lemma_three_digits(secs / 60);
    } else if 3600 <= secs < 86_400 {
        lemma_three_digits(secs / 3600);
    } else if 86_400 <= secs {
        lemma_three_digits(secs / 86_400);
    }
    let l = conversation_row(t, picker, i, summary, now);
    lemma_row_of_three(l.take(3));
    lemma_row_width_push(l.take(3), l[3]);
    assert(l =~= l.take(3).push(l[3]));
}

proof fn lemma_three_digits(n: nat)
    requires
        n < 1000,
    ensures
        decimal(n).len() <= 3,
{
    reveal_with_fuel(decimal, 3);
}

/// The path in the question about a directory fits it, however long it is.
pub proof fn law_the_path_fits_the_question(t: Theme, path: Seq<char>, full: Rect)
    ensures
        row_width(mkdir_dialog(t, path, full).lines[2]) <= 64 - 2,
{
    reveal_strlit("  ");
    law_a_shortened_path_fits(path, 58);
    let l = mkdir_dialog(t, path, full).lines[2];
    lemma_row_width_push(Seq::empty(), l[0]);
    assert(l =~= Seq::empty().push(l[0]));
}

} // verus!
