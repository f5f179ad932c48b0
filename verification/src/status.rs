//! The status bar: a message, or what the keys do in the current mode.

use vstd::prelude::*;

use crate::model::{App, Mode};
use crate::paint::{chip, colored, plain, span, strong, Line, LineView, Span, Style};
use crate::text::{concat, concat3};
use crate::theme;

verus! {

/// A table of keys and what they do.
pub open spec fn pairs(v: Seq<(&str, &str)>) -> Seq<(Seq<char>, Seq<char>)> {
    Seq::new(v.len(), |i: int| (v[i].0@, v[i].1@))
}

/// What the keys do in a mode.
pub open spec fn hints_of(mode: Mode, update_ready: bool) -> Seq<(Seq<char>, Seq<char>)> {
    match mode {
        Mode::Nav => if update_ready {
            seq![
                ("r"@, "RESTART INTO THE NEW BUILD"@),
                ("up/dn"@, "select"@),
                ("enter"@, "focus"@),
                ("n"@, "new"@),
                ("u"@, "understand project"@),
                ("q"@, "quit"@),
            ]
        } else {
            seq![
                ("up/dn"@, "select"@),
                ("enter"@, "focus"@),
                ("n"@, "new"@),
                ("R"@, "resume a conversation"@),
                ("u"@, "understand project"@),
                ("x"@, "kill"@),
                ("?"@, "help"@),
                ("q"@, "quit"@),
            ]
        },
        Mode::Focus => seq![
            ("F10"@, "LEAVE FOCUS"@),
            ("F1-F9"@, "session"@),
            ("F11"@, "new"@),
            ("F12"@, "help"@),
        ],
        Mode::NewSession => seq![
            ("enter"@, "start"@),
            ("up/dn"@, "recent"@),
            ("esc"@, "cancel"@),
        ],
        Mode::Help => seq![("any key"@, "close"@)],
        Mode::ConfirmKill => seq![("y"@, "yes"@), ("n/esc"@, "no"@)],
        Mode::ConfirmMkdir => seq![("y/enter"@, "create it"@), ("n/esc"@, "back to the path"@)],
        Mode::ConfirmRestart => seq![("y"@, "restart"@), ("n/esc"@, "leave it"@)],
        Mode::Resume => seq![
            ("enter"@, "resume"@),
            ("up/dn"@, "pick a conversation"@),
            ("esc"@, "close"@),
        ],
        Mode::Understand => seq![
            ("F1-F9"@, "that session"@),
            ("u"@, "new session"@),
            ("n"@, "new, pick a directory"@),
            ("enter"@, "the selected one"@),
            ("esc"@, "cancel"@),
        ],
    }
}

/// What the keys do in a mode.
fn hints(mode: Mode, update_ready: bool) -> (r: Vec<(&'static str, &'static str)>)
    ensures
        pairs(r@) == hints_of(mode, update_ready),
{
    match mode {
        Mode::Nav => if update_ready {
            vec![
                ("r", "RESTART INTO THE NEW BUILD"),
                ("up/dn", "select"),
                ("enter", "focus"),
                ("n", "new"),
                ("u", "understand project"),
                ("q", "quit"),
            ]
        } else {
            vec![
                ("up/dn", "select"),
                ("enter", "focus"),
                ("n", "new"),
                ("R", "resume a conversation"),
                ("u", "understand project"),
                ("x", "kill"),
                ("?", "help"),
                ("q", "quit"),
            ]
        },
        Mode::Focus => vec![
            ("F10", "LEAVE FOCUS"),
            ("F1-F9", "session"),
            ("F11", "new"),
            ("F12", "help"),
        ],
        Mode::NewSession => vec![("enter", "start"), ("up/dn", "recent"), ("esc", "cancel")],
        Mode::Help => vec![("any key", "close")],
        Mode::ConfirmKill => vec![("y", "yes"), ("n/esc", "no")],
        Mode::ConfirmMkdir => vec![("y/enter", "create it"), ("n/esc", "back to the path")],
        Mode::ConfirmRestart => vec![("y", "restart"), ("n/esc", "leave it")],
        Mode::Resume => vec![
            ("enter", "resume"),
            ("up/dn", "pick a conversation"),
            ("esc", "close"),
        ],
        Mode::Understand => vec![
            ("F1-F9", "that session"),
            ("u", "new session"),
            ("n", "new, pick a directory"),
            ("enter", "the selected one"),
            ("esc", "cancel"),
        ],
    }
}

/// A key and what it does. In Focus the escape hatch is the one thing that
/// must not be missed, so the first key gets an inverted chip rather than the
/// usual accent text.
pub open spec fn hint_spans(app: App, i: int, hint: (Seq<char>, Seq<char>)) -> LineView {
    let t = app.theme;
    seq![
        if app.mode == Mode::Focus && i == 0 {
            span(" "@ + hint.0 + " "@, chip(t.accent, t.surface))
        } else {
            span(hint.0, strong(t.accent))
        },
    ] + (if hint.1.len() > 0 {
        seq![span(" "@ + hint.1, colored(t.muted))]
    } else {
        Seq::empty()
    }) + seq![span("   "@, plain())]
}

/// The first `n` hints in a row.
pub open spec fn hint_row(app: App, hints: Seq<(Seq<char>, Seq<char>)>, n: nat) -> LineView
    decreases n,
{
    if n == 0 {
        seq![span(" "@, plain())]
    } else {
        hint_row(app, hints, (n - 1) as nat) + hint_spans(app, n - 1, hints[n - 1])
    }
}

/// The status bar.
pub open spec fn status_row(app: App) -> LineView {
    let t = app.theme;
    match app.status {
        Some(msg) => seq![span(" > "@, colored(t.accent)), span(msg@, colored(t.text))],
        None => {
            let hints = hints_of(app.mode, app.update_ready);
            hint_row(app, hints, hints.len())
        },
    }
}

/// The status bar.
pub fn draw_status(app: &App) -> (r: Line)
    ensures
        r.view() == status_row(*app),
{
    let t = &app.theme;
    if let Some(msg) = &app.status {
        return Line::new().with(" > ", Style::colored(theme::accent(t))).with(
            msg.as_str(),
            Style::colored(theme::text(t)),
        );
    }
    let hints = hints(app.mode, app.update_ready);
    let ghost table = hints_of(app.mode, app.update_ready);
    assert(pairs(hints@).len() == hints@.len());
    let mut line = Line::new().raw(" ");
    assert(line.view() =~= hint_row(*app, table, 0));
    let mut i: usize = 0;
    while i < hints.len()
        invariant
            i <= hints@.len(),
            pairs(hints@) == table,
            *t == app.theme,
            line.view() == hint_row(*app, table, i as nat),
        decreases hints@.len() - i,
    {
        let (k, v) = hints[i];
        let ghost before = line.view();
        assert(table[i as int] == (k@, v@)) by {
            assert(pairs(hints@)[i as int] == (k@, v@));
        }
        if app.mode == Mode::Focus && i == 0 {
            let key = concat3(" ", k, " ");
            line.push(Span::new(key.as_str(), Style::chip(theme::accent(t), theme::surface(t))));
        } else {
            line.push(Span::new(k, Style::strong(theme::accent(t))));
        }
        if v.unicode_len() > 0 {
            let what = concat(" ", v);
            line.push(Span::new(what.as_str(), Style::colored(theme::muted(t))));
        }
        line.push(Span::raw("   "));
        assert(line.view() =~= before + hint_spans(*app, i as int, (k@, v@)));
        i += 1;
    }
    line
}

} // verus!
