//! The pane: the terminal of the selected session, or what to do when there is
//! none.

use vstd::prelude::*;

use crate::format::{bytes_label, fmt_bytes, shorten_path, shortened};
use crate::model::{chosen, App, Mode, Session};
use crate::paint::{bare, blank, chip, colored, one, span, strong, Frame, FrameView, Line, LineView,
    Span, SpanView, Style, Text, TextView};
use crate::text::{concat3, decimal, number};
use crate::theme;

verus! {

/// What the pane shows.
pub enum Pane {
    /// No session is selected: centred lines in a frame.
    Hint { lines: Text, frame: Frame },
    /// The terminal of the selected session in a frame, with a cursor in the
    /// given style.
    Terminal { frame: Frame, cursor: Style },
}

/// What the pane shows.
pub enum PaneView {
    Hint { lines: TextView, frame: FrameView },
    Terminal { frame: FrameView, cursor: Style },
}

impl Pane {
    pub open spec fn view(&self) -> PaneView {
        match *self {
            Pane::Hint { lines, frame } => PaneView::Hint {
                lines: lines.view(),
                frame: frame.view(),
            },
            Pane::Terminal { frame, cursor } => PaneView::Terminal { frame: frame.view(), cursor },
        }
    }
}

/// What to do when there is no session.
pub open spec fn hint_rows(app: App) -> TextView {
    let t = app.theme;
    seq![
        blank(),
        one("No sessions running."@, colored(t.muted)),
        blank(),
        key_row(app, "n"@, "  new session in a directory you pick"@),
        key_row(app, "?"@, "  keyboard shortcuts"@),
        key_row(app, "q"@, "  quit"@),
    ]
}

/// A key, and what it does.
pub open spec fn key_row(app: App, key: Seq<char>, what: Seq<char>) -> LineView {
    seq![span(key, strong(app.theme.accent)), span(what, colored(app.theme.muted))]
}

/// What the title says of the session: that it is over, how to leave it, or
/// that it only shows. Naming the way out in the title means it is on screen
/// even when the status bar is showing a transient message.
pub open spec fn mode_tag(app: App, s: Session) -> SpanView {
    let t = app.theme;
    if !s.is_alive {
        span(" FINISHED "@, strong(t.dead))
    } else if app.mode == Mode::Focus {
        span(" FOCUS — F10 leaves "@, chip(t.accent, t.surface))
    } else {
        span(" VIEW ONLY "@, colored(t.muted))
    }
}

/// A session stopped on a question is the one thing worth saying on the frame:
/// the pane shows the dialog, but the title says what it wants.
pub open spec fn question_tag(app: App, s: Session) -> LineView {
    match s.entry {
        Some(e) => if e.is_waiting {
            seq![
                span(
                    if e.waiting_for@.len() == 0 {
                        " QUESTION "@
                    } else {
                        " QUESTION — "@ + e.waiting_for@ + " "@
                    },
                    chip(app.theme.ask, app.theme.surface),
                ),
            ]
        } else {
            Seq::empty()
        },
        None => Seq::empty(),
    }
}

/// A prompt has yet to be handed to the session.
pub open spec fn pending_tag(app: App, s: Session) -> LineView {
    if s.prompt_pending {
        one(" understand project… "@, colored(app.theme.ask))
    } else {
        Seq::empty()
    }
}

/// How far the pane is scrolled back.
pub open spec fn scroll_tag(app: App, s: Session) -> LineView {
    if s.scrollback > 0 {
        one(" ^"@ + decimal(s.scrollback as nat) + " "@, colored(app.theme.busy))
    } else {
        Seq::empty()
    }
}

/// How much is still being pasted.
pub open spec fn paste_tag(app: App, s: Session) -> LineView {
    if s.queued_input > 0 {
        one(" pasting "@ + bytes_label(s.queued_input as nat) + " "@, strong(app.theme.busy))
    } else {
        Seq::empty()
    }
}

/// The title of the pane.
pub open spec fn pane_title(app: App, s: Session) -> LineView {
    seq![span(" "@ + s.label@ + " "@, strong(app.theme.text)), mode_tag(app, s)] + question_tag(
        app,
        s,
    ) + pending_tag(app, s) + scroll_tag(app, s) + paste_tag(app, s)
}

/// The size of a terminal, as it is written on the frame.
pub open spec fn size_label(s: Session) -> Seq<char> {
    " "@ + decimal(s.cols as nat) + "x"@ + decimal(s.rows as nat) + " "@
}

/// The frame of the pane.
pub open spec fn pane_frame(app: App, s: Session) -> FrameView {
    let t = app.theme;
    FrameView {
        border: if app.mode == Mode::Focus {
            t.accent
        } else {
            t.faint
        },
        title: Some(pane_title(app, s)),
        bottom: Some(one(" "@ + shortened(s.cwd@, 44) + " "@, colored(t.faint))),
        bottom_right: Some(one(size_label(s), colored(t.faint))),
    }
}

/// What the pane shows.
pub open spec fn pane_of(app: App) -> PaneView {
    match chosen(app) {
        None => PaneView::Hint { lines: hint_rows(app), frame: bare(app.theme.faint) },
        Some(s) => PaneView::Terminal {
            frame: pane_frame(app, s),
            cursor: colored(app.theme.accent),
        },
    }
}

/// The lines that say what to do when there is no session.
fn hint(app: &App) -> (r: Text)
    ensures
        r.view() == hint_rows(*app),
{
    let t = &app.theme;
    let key = Style::strong(theme::accent(t));
    let what = Style::colored(theme::muted(t));
    let n = Line::new().with("n", key).with("  new session in a directory you pick", what);
    assert(n.view() =~= key_row(*app, "n"@, "  new session in a directory you pick"@));
    let h = Line::new().with("?", key).with("  keyboard shortcuts", what);
    assert(h.view() =~= key_row(*app, "?"@, "  keyboard shortcuts"@));
    let q = Line::new().with("q", key).with("  quit", what);
    assert(q.view() =~= key_row(*app, "q"@, "  quit"@));
    Text::new().blank().one("No sessions running.", what).blank().with(n).with(h).with(q)
}

/// What the title says of the session.
fn tag(app: &App, s: &Session) -> (r: Span)
    ensures
        r.view() == mode_tag(*app, *s),
{
    let t = &app.theme;
    if !s.is_alive {
        Span::new(" FINISHED ", Style::strong(theme::dead(t)))
    } else if app.mode == Mode::Focus {
        Span::new(" FOCUS — F10 leaves ", Style::chip(theme::accent(t), theme::surface(t)))
    } else {
        Span::new(" VIEW ONLY ", Style::colored(theme::muted(t)))
    }
}

/// The title of the pane.
fn title(app: &App, s: &Session) -> (r: Line)
    ensures
        r.view() == pane_title(*app, *s),
{
    let t = &app.theme;
    let label = concat3(" ", s.label.as_str(), " ");
    let mut title = Line::new().with(label.as_str(), Style::strong(theme::text(t)));
    title.push(tag(app, s));
    let ghost start = title.view();
    assert(start =~= seq![
        span(" "@ + s.label@ + " "@, strong(t.text)),
        mode_tag(*app, *s),
    ]);
    if let Some(e) = &s.entry {
        if e.is_waiting {
            let what = if e.waiting_for.as_str().unicode_len() == 0 {
                " QUESTION ".to_owned()
            } else {
                concat3(" QUESTION — ", e.waiting_for.as_str(), " ")
            };
            title.push(Span::new(what.as_str(), Style::chip(theme::ask(t), theme::surface(t))));
        }
    }
    assert(title.view() =~= start + question_tag(*app, *s));
    if s.prompt_pending {
        title.push(Span::new(" understand project… ", Style::colored(theme::ask(t))));
    }
    assert(title.view() =~= start + question_tag(*app, *s) + pending_tag(*app, *s));
    if s.scrollback > 0 {
        let back = concat3(" ^", number(s.scrollback as u64).as_str(), " ");
        title.push(Span::new(back.as_str(), Style::colored(theme::busy(t))));
    }
    assert(title.view() =~= start + question_tag(*app, *s) + pending_tag(*app, *s) + scroll_tag(
        *app,
        *s,
    ));
    if s.queued_input > 0 {
        let left = concat3(" pasting ", fmt_bytes(s.queued_input).as_str(), " ");
        title.push(Span::new(left.as_str(), Style::strong(theme::busy(t))));
    }
    title
}

/// The frame of the pane.
fn frame(app: &App, s: &Session) -> (r: Frame)
    ensures
        r.view() == pane_frame(*app, *s),
{
    let t = &app.theme;
    let faint = Style::colored(theme::faint(t));
    let cwd = concat3(" ", shorten_path(s.cwd.as_str(), 44).as_str(), " ");
    let bottom = Line::new().with(cwd.as_str(), faint);
    assert(bottom.view() =~= pane_frame(*app, *s).bottom->0);
    let size = concat3(" ", number(s.cols as u64).as_str(), "x");
    let size = concat3(size.as_str(), number(s.rows as u64).as_str(), " ");
    let bottom_right = Line::new().with(size.as_str(), faint);
    assert(bottom_right.view() =~= pane_frame(*app, *s).bottom_right->0);
    Frame {
        border: if app.mode == Mode::Focus {
            theme::accent(t)
        } else {
            theme::faint(t)
        },
        title: Some(title(app, s)),
        bottom: Some(bottom),
        bottom_right: Some(bottom_right),
    }
}

/// What the pane shows.
pub fn draw_pane(app: &App) -> (r: Pane)
    ensures
        r.view() == pane_of(*app),
{
    match app.selected_session() {
        None => Pane::Hint { lines: hint(app), frame: Frame::bare(theme::faint(&app.theme)) },
        Some(s) => Pane::Terminal {
            frame: frame(app, s),
            cursor: Style::colored(theme::accent(&app.theme)),
        },
    }
}

/// Whether the pane shows a cursor, given whether its terminal hides it. Only
/// the pane taking keystrokes should.
pub fn cursor_visible(app: &App, hidden: bool) -> (r: bool)
    ensures
        r == (app.mode == Mode::Focus && !hidden && (chosen(*app) matches Some(s)
            && s.is_alive)),
{
    match app.selected_session() {
        None => false,
        Some(s) => app.mode == Mode::Focus && s.is_alive && !hidden,
    }
}

} // verus!
