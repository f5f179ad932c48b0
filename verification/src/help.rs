//! The shortcuts.

use vstd::prelude::*;

use crate::dialog::{Dialog, DialogView};
use crate::layout::{centered, has_middle, middle, Rect};
use crate::names::{config_file, config_path};
use crate::paint::{colored, one, span, strong, titled, Frame, Line, LineView, Style, Text,
    TextView};
use crate::status::pairs;
use crate::text::{align_left, concat, concat3, to_the_left};
use crate::theme;
use crate::theme::Theme;

verus! {

/// The shortcuts and what they do. A row without a key is a heading, or goes
/// on with what the row above it says.
pub open spec fn shortcuts(assistant: Seq<char>) -> Seq<(Seq<char>, Seq<char>)> {
    seq![
        (""@, "-- NAVIGATION --"@),
        ("up/down, j/k"@, "select a session"@),
        ("enter / tab"@, "enter the session (focus)"@),
        ("F1 .. F9"@, "jump to a session (always works)"@),
        (""@, "the first free F starts a new session"@),
        ("n"@, "new session"@),
        ("u"@, "understand project (see below)"@),
        ("x"@, "kill the selected session"@),
        ("w"@, "close a finished session's card now"@),
        (""@, "(finished ones go by themselves after a minute)"@),
        ("r"@, "restart into a new build (when a newer exe exists)"@),
        (""@, "(sessions come back with their conversations, --resume)"@),
        ("R"@, "resume an old conversation (transcript list)"@),
        ("U"@, "refresh the account limits now"@),
        (""@, "(a hidden /usage session, no tokens)"@),
        ("q"@, "quit"@),
        (""@, ""@),
        (""@, "-- FOCUS --"@),
        ("F10"@, "LEAVE FOCUS"@),
        ("everything else"@, "goes to "@ + assistant + ", including Ctrl+anything"@),
        ("mouse wheel"@, "scroll the history"@),
        (""@, ""@),
        (""@, "-- ALWAYS WORKS --"@),
        ("F1 .. F9"@, "jump to a session"@),
        (""@, "F on the first free slot = new session"@),
        (""@, "(in the selected session's directory, no dialog)"@),
        ("F11"@, "new session"@),
        ("F12"@, "this help"@),
        (""@, ""@),
        (""@, "-- LIVE CONFIG --"@),
        (""@, config_path(assistant) + " — colours, labels, timings"@),
        (""@, "a save shows up at once, sessions live on"@),
        (""@, ""@),
        (""@, "-- UNDERSTAND PROJECT --"@),
        ("u"@, "arms it, then the target:"@),
        (""@, "u F1..F9 = that session (free slot = a new one)"@),
        (""@, "u u = new session, no directory dialog"@),
        (""@, "u n = new session with the directory dialog"@),
        (""@, "u enter = the selected session"@),
        ("F1..F9, then u"@, "the same thing, the other way round"@),
        (""@, "(a lone u counts for 2 s after entering a session)"@),
        (""@, "the text lands in the prompt, enter sends it"@),
        (""@, ""@),
        (""@, "-- FOREIGN SESSIONS --"@),
        ("!"@, "started outside fleet, view only"@),
        (""@, "their PTY belongs to another terminal"@),
    ]
}

/// How many rows the shortcuts take, with the border around them.
pub const HELP_HEIGHT: u16 = 48;

/// The shortcuts and what they do.
fn table<'a>(assistant: &str, goes_to: &'a str, config: &'a str) -> (r: Vec<(&'a str, &'a str)>)
    requires
        goes_to@ == "goes to "@ + assistant@ + ", including Ctrl+anything"@,
        config@ == config_path(assistant@) + " — colours, labels, timings"@,
    ensures
        pairs(r@) == shortcuts(assistant@),
{
    vec![
        ("", "-- NAVIGATION --"),
        ("up/down, j/k", "select a session"),
        ("enter / tab", "enter the session (focus)"),
        ("F1 .. F9", "jump to a session (always works)"),
        ("", "the first free F starts a new session"),
        ("n", "new session"),
        ("u", "understand project (see below)"),
        ("x", "kill the selected session"),
        ("w", "close a finished session's card now"),
        ("", "(finished ones go by themselves after a minute)"),
        ("r", "restart into a new build (when a newer exe exists)"),
        ("", "(sessions come back with their conversations, --resume)"),
        ("R", "resume an old conversation (transcript list)"),
        ("U", "refresh the account limits now"),
        ("", "(a hidden /usage session, no tokens)"),
        ("q", "quit"),
        ("", ""),
        ("", "-- FOCUS --"),
        ("F10", "LEAVE FOCUS"),
        ("everything else", goes_to),
        ("mouse wheel", "scroll the history"),
        ("", ""),
        ("", "-- ALWAYS WORKS --"),
        ("F1 .. F9", "jump to a session"),
        ("", "F on the first free slot = new session"),
        ("", "(in the selected session's directory, no dialog)"),
        ("F11", "new session"),
        ("F12", "this help"),
        ("", ""),
        ("", "-- LIVE CONFIG --"),
        ("", config),
        ("", "a save shows up at once, sessions live on"),
        ("", ""),
        ("", "-- UNDERSTAND PROJECT --"),
        ("u", "arms it, then the target:"),
        ("", "u F1..F9 = that session (free slot = a new one)"),
        ("", "u u = new session, no directory dialog"),
        ("", "u n = new session with the directory dialog"),
        ("", "u enter = the selected session"),
        ("F1..F9, then u", "the same thing, the other way round"),
        ("", "(a lone u counts for 2 s after entering a session)"),
        ("", "the text lands in the prompt, enter sends it"),
        ("", ""),
        ("", "-- FOREIGN SESSIONS --"),
        ("!", "started outside fleet, view only"),
        ("", "their PTY belongs to another terminal"),
    ]
}

/// A row of the shortcuts.
pub open spec fn shortcut_row(t: Theme, row: (Seq<char>, Seq<char>)) -> LineView {
    if row.0.len() == 0 {
        one("  "@ + row.1, strong(t.accent_dim))
    } else {
        seq![
            span("  "@ + align_left(row.0, 20), strong(t.accent)),
            span(row.1, colored(t.text)),
        ]
    }
}

/// The rows of the shortcuts.
pub open spec fn help_rows(t: Theme, assistant: Seq<char>) -> TextView {
    Seq::new(shortcuts(assistant).len(), |i: int| shortcut_row(t, shortcuts(assistant)[i]))
}

/// The shortcuts, in a dialog that wraps what is too long for it.
pub open spec fn help_dialog(t: Theme, assistant: Seq<char>, full: Rect) -> DialogView {
    DialogView {
        area: middle(64, HELP_HEIGHT, full),
        frame: titled(t.accent, one(" shortcuts "@, strong(t.accent))),
        lines: help_rows(t, assistant),
        wrap: true,
    }
}

/// A row of the shortcuts.
fn shortcut_line(t: &Theme, k: &str, v: &str) -> (r: Line)
    ensures
        r.view() == shortcut_row(*t, (k@, v@)),
{
    if k.unicode_len() == 0 {
        let what = concat("  ", v);
        Line::new().with(what.as_str(), Style::strong(theme::accent_dim(t)))
    } else {
        let key = concat("  ", to_the_left(k, 20).as_str());
        Line::new().with(key.as_str(), Style::strong(theme::accent(t))).with(
            v,
            Style::colored(theme::text(t)),
        )
    }
}

/// The shortcuts.
pub fn draw_help(t: &Theme, assistant: &str, full: Rect) -> (r: Dialog)
    requires
        has_middle(64, HELP_HEIGHT, full),
    ensures
        r.view() == help_dialog(*t, assistant@, full),
{
    let goes_to = concat3("goes to ", assistant, ", including Ctrl+anything");
    let config = concat(config_file(assistant).as_str(), " — colours, labels, timings");
    let rows = table(assistant, goes_to.as_str(), config.as_str());
    let ghost all = help_rows(*t, assistant@);
    assert(pairs(rows@).len() == rows@.len());
    let mut lines = Text::new();
    assert(lines.view() =~= all.take(0));
    let mut i: usize = 0;
    while i < rows.len()
        invariant
            i <= rows@.len(),
            pairs(rows@) == shortcuts(assistant@),
            all == help_rows(*t, assistant@),
            all.len() == rows@.len(),
            lines.view() == all.take(i as int),
        decreases rows@.len() - i,
    {
        let (k, v) = rows[i];
        assert(pairs(rows@)[i as int] == (k@, v@));
        lines.push(shortcut_line(t, k, v));
        assert(all.take(i as int).push(all[i as int]) =~= all.take(i + 1));
        i += 1;
    }
    assert(all.take(all.len() as int) =~= all);
    Dialog {
        area: centered(64, rows.len() as u16 + 2, full),
        frame: Frame::titled(theme::accent(t), " shortcuts ", Style::strong(theme::accent(t))),
        lines,
        wrap: true,
    }
}

/// Every shortcut has a row in the dialog, inside its border.
pub proof fn law_every_shortcut_has_a_row(t: Theme, assistant: Seq<char>, full: Rect)
    requires
        full.height >= HELP_HEIGHT,
    ensures
        help_dialog(t, assistant, full).lines.len() + 2 == help_dialog(
            t,
            assistant,
            full,
        ).area.height,
{
}

/// The shortcuts say what every key does, the key in a column of its own and
/// what it does beside it, under headings and with what else there is to say.
pub proof fn law_the_shortcuts_say_what_the_keys_do(t: Theme, assistant: Seq<char>, full: Rect)
    ensures
        ({
            let rows = help_dialog(t, assistant, full).lines;
            &&& explains(t, rows[0], "-- NAVIGATION --"@)
            &&& says(t, rows[1], "up/down, j/k"@, "select a session"@)
            &&& says(t, rows[2], "enter / tab"@, "enter the session (focus)"@)
            &&& says(t, rows[3], "F1 .. F9"@, "jump to a session (always works)"@)
            &&& explains(t, rows[4], "the first free F starts a new session"@)
            &&& says(t, rows[5], "n"@, "new session"@)
            &&& says(t, rows[6], "u"@, "understand project (see below)"@)
            &&& says(t, rows[7], "x"@, "kill the selected session"@)
            &&& says(t, rows[8], "w"@, "close a finished session's card now"@)
            &&& explains(t, rows[9], "(finished ones go by themselves after a minute)"@)
            &&& says(t, rows[10], "r"@, "restart into a new build (when a newer exe exists)"@)
            &&& explains(t, rows[11], "(sessions come back with their conversations, --resume)"@)
            &&& says(t, rows[12], "R"@, "resume an old conversation (transcript list)"@)
            &&& says(t, rows[13], "U"@, "refresh the account limits now"@)
            &&& explains(t, rows[14], "(a hidden /usage session, no tokens)"@)
            &&& says(t, rows[15], "q"@, "quit"@)
            &&& explains(t, rows[16], ""@)
            &&& explains(t, rows[17], "-- FOCUS --"@)
            &&& says(t, rows[18], "F10"@, "LEAVE FOCUS"@)
            &&& says(
                t,
                rows[19],
                "everything else"@,
                "goes to "@ + assistant + ", including Ctrl+anything"@,
            )
            &&& says(t, rows[20], "mouse wheel"@, "scroll the history"@)
            &&& explains(t, rows[21], ""@)
            &&& explains(t, rows[22], "-- ALWAYS WORKS --"@)
            &&& says(t, rows[23], "F1 .. F9"@, "jump to a session"@)
            &&& explains(t, rows[24], "F on the first free slot = new session"@)
            &&& explains(t, rows[25], "(in the selected session's directory, no dialog)"@)
            &&& says(t, rows[26], "F11"@, "new session"@)
            &&& says(t, rows[27], "F12"@, "this help"@)
            &&& explains(t, rows[28], ""@)
            &&& explains(t, rows[29], "-- LIVE CONFIG --"@)
            &&& explains(t, rows[30], config_path(assistant) + " — colours, labels, timings"@)
            &&& explains(t, rows[31], "a save shows up at once, sessions live on"@)
            &&& explains(t, rows[32], ""@)
            &&& explains(t, rows[33], "-- UNDERSTAND PROJECT --"@)
            &&& says(t, rows[34], "u"@, "arms it, then the target:"@)
            &&& explains(t, rows[35], "u F1..F9 = that session (free slot = a new one)"@)
            &&& explains(t, rows[36], "u u = new session, no directory dialog"@)
            &&& explains(t, rows[37], "u n = new session with the directory dialog"@)
            &&& explains(t, rows[38], "u enter = the selected session"@)
            &&& says(t, rows[39], "F1..F9, then u"@, "the same thing, the other way round"@)
            &&& explains(t, rows[40], "(a lone u counts for 2 s after entering a session)"@)
            &&& explains(t, rows[41], "the text lands in the prompt, enter sends it"@)
            &&& explains(t, rows[42], ""@)
            &&& explains(t, rows[43], "-- FOREIGN SESSIONS --"@)
            &&& says(t, rows[44], "!"@, "started outside fleet, view only"@)
            &&& explains(t, rows[45], "their PTY belongs to another terminal"@)
        }),
{
    reveal_strlit("!");
    reveal_strlit("F1 .. F9");
    reveal_strlit("F1..F9, then u");
    reveal_strlit("F10");
    reveal_strlit("F11");
    reveal_strlit("F12");
    reveal_strlit("R");
    reveal_strlit("U");
    reveal_strlit("enter / tab");
    reveal_strlit("everything else");
    reveal_strlit("mouse wheel");
    reveal_strlit("n");
    reveal_strlit("q");
    reveal_strlit("r");
    reveal_strlit("u");
    reveal_strlit("up/down, j/k");
    reveal_strlit("w");
    reveal_strlit("x");
    reveal_strlit("");
}

/// A row of the shortcuts heads those below it, or goes on with the one above.
pub open spec fn explains(t: Theme, row: LineView, what: Seq<char>) -> bool {
    &&& row.len() == 1
    &&& row[0].text == "  "@ + what
    &&& row[0].style.fg == Some(t.accent_dim) && row[0].style.bold
}

/// A row of the shortcuts says what a key does.
pub open spec fn says(t: Theme, row: LineView, key: Seq<char>, what: Seq<char>) -> bool {
    &&& row.len() == 2
    &&& row[0].text == "  "@ + align_left(key, 20)
    &&& row[0].style.fg == Some(t.accent) && row[0].style.bold
    &&& row[1].text == what
    &&& row[1].style.fg == Some(t.text)
}

} // verus!
