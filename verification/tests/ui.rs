use fleet::dialog::{draw_confirm_kill, draw_confirm_mkdir, draw_confirm_restart, draw_new_session,
    draw_resume, height_for};
use fleet::help::draw_help;
use fleet::input::{outcome, Waited};
use fleet::layout::{Rect, SIDEBAR_WIDTH};
use fleet::limits::{usage_color, usage_lines, usage_rows};
use fleet::model::{App, Conversation, Entry, Form, Labels, Mode, Picker, Recent, Session};
use fleet::names::{banner, cache_file, config_file};
use fleet::paint::{Line, Style, Text};
use fleet::pane::{cursor_visible, draw_pane, Pane};
use fleet::screen::{can_draw, draw};
use fleet::sidebar::draw_sidebar;
use fleet::status::draw_status;
use fleet::theme;
use fleet::theme::Theme;
use fleet::time::{Duration, Moment};
use fleet::usage::{Usage, Window};
use ratatui::style::Color;

fn window(pct: u8, secs: u64, expired: bool) -> Window {
    Window {
        pct,
        resets_in: if expired { None } else { Some(Duration::from_secs(secs)) },
        expired,
    }
}

fn palette() -> Theme {
    Theme {
        accent: Color::Indexed(1),
        accent_dim: Color::Indexed(2),
        text: Color::Indexed(3),
        muted: Color::Indexed(4),
        faint: Color::Indexed(5),
        busy: Color::Indexed(6),
        idle: Color::Indexed(7),
        ask: Color::Indexed(8),
        dead: Color::Indexed(9),
        surface: Color::Indexed(10),
        bar: Color::Indexed(11),
        bar_empty: Color::Indexed(12),
    }
}

fn app(mode: Mode) -> App {
    App {
        mode,
        sessions: Vec::new(),
        selected: 0,
        foreign: Vec::new(),
        update_ready: false,
        usage: None,
        usage_refreshing: false,
        status: None,
        form: None,
        resume: None,
        pending_mkdir: None,
        theme: palette(),
        labels: Labels {
            busy: "busy".into(),
            idle: "idle".into(),
            waiting: "ASKS".into(),
            starting: "starting".into(),
        },
        assistant: "Ada".into(),
        finished_ttl: Duration::from_secs(60),
        now: Moment::new(1_000_000, 0),
    }
}

fn session(label: &str) -> Session {
    Session {
        label: label.into(),
        cwd: format!("/home/me/{label}"),
        cwd_label: label.into(),
        is_alive: true,
        finished_for: None,
        running_for: Duration::from_secs(300),
        entry: None,
        prompt_pending: false,
        scrollback: 0,
        queued_input: 0,
        cols: 80,
        rows: 24,
    }
}

fn entry(name: &str, status: &str, waiting_for: &str) -> Entry {
    Entry {
        name: name.into(),
        status: status.into(),
        is_waiting: status == "waiting",
        waiting_for: waiting_for.into(),
        cwd_label: "src".into(),
    }
}

fn plain(l: &Line) -> String {
    l.spans.iter().map(|s| s.text.as_str()).collect()
}

fn rows(t: &Text) -> Vec<String> {
    t.lines.iter().map(plain).collect()
}

fn fg(l: &Line, i: usize) -> Option<Color> {
    l.spans[i].style.fg
}

/// The line as the screen measures it.
fn width(l: &Line) -> usize {
    ratatui::text::Line::from(plain(l)).width()
}

fn full() -> Rect {
    Rect { x: 0, y: 0, width: 120, height: 60 }
}

#[test]
fn a_limit_row_fits_the_sidebar() {
    // The sidebar is a fixed width and the rows have no room to wrap, so
    // the widest thing they can hold has to still fit between the borders.
    let inner = usize::from(SIDEBAR_WIDTH) - 2;
    for w in [
        window(0, 59 * 60, false),
        window(100, 6 * 86_400 + 3 * 3600, false),
        window(87, 0, true),
    ] {
        for label in ["session", "weekly"] {
            for row in &usage_rows(&palette(), label, &w, inner).lines {
                assert!(
                    width(row) <= inner,
                    "{label} {w:?} takes {} of {inner}",
                    width(row)
                );
            }
        }
    }
}

#[test]
fn every_window_there_can_be_fits_the_sidebar() {
    let inner = usize::from(SIDEBAR_WIDTH) - 2;
    let far = Window { pct: 255, resets_in: Some(Duration::new(u64::MAX, 0)), expired: false };
    for row in &usage_rows(&palette(), "session", &far, inner).lines {
        assert_eq!(width(row), inner);
    }
}

#[test]
fn a_limit_is_a_heading_and_a_bar() {
    let t = palette();
    let got = usage_rows(&t, "session", &window(41, 8040, false), 34);
    assert_eq!(
        rows(&got),
        [
            format!(" session{} 41%  2h14m ", " ".repeat(14)),
            format!(" {}{} ", "█".repeat(13), "░".repeat(19)),
        ]
    );
    assert_eq!(fg(&got.lines[0], 0), Some(t.muted));
    assert_eq!(fg(&got.lines[0], 2), Some(t.idle));
    assert!(got.lines[0].spans[2].style.bold);
    assert_eq!(fg(&got.lines[1], 1), Some(t.bar));
    assert_eq!(fg(&got.lines[1], 2), Some(t.bar_empty));
    // A window that is over goes faint.
    let over = usage_rows(&t, "weekly", &window(87, 0, true), 34);
    assert_eq!(plain(&over.lines[0]), format!(" weekly{} 87%  stale ", " ".repeat(15)));
    assert_eq!(fg(&over.lines[0], 0), Some(t.faint));
    assert_eq!(fg(&over.lines[0], 2), Some(t.faint));
    assert_eq!(fg(&over.lines[1], 1), Some(t.faint));
    assert_eq!(fg(&over.lines[1], 2), Some(t.surface));
}

#[test]
fn a_percentage_warns_from_green_to_red() {
    let t = palette();
    for (pct, color) in [(0, t.idle), (49, t.idle), (50, t.busy), (84, t.busy), (85, t.dead), (255, t.dead)] {
        assert_eq!(usage_color(&t, pct), color);
    }
}

#[test]
fn the_palette_is_read_through_its_accessors() {
    let t = palette();
    let got = [
        theme::accent(&t), theme::accent_dim(&t), theme::text(&t), theme::muted(&t),
        theme::faint(&t), theme::busy(&t), theme::idle(&t), theme::ask(&t), theme::dead(&t),
        theme::surface(&t), theme::bar(&t), theme::bar_empty(&t),
    ];
    for (i, c) in got.iter().enumerate() {
        assert_eq!(*c, Color::Indexed(i as u8 + 1));
    }
}

fn usage(ago: u64) -> Usage {
    Usage {
        session: Some(window(10, 60, false)),
        weekly: Some(window(20, 120, false)),
        fetched_ago: Duration::from_secs(ago),
    }
}

#[test]
fn limits_have_a_title_that_says_their_age() {
    let t = palette();
    assert_eq!(usage_lines(&t, &None, true, 34).lines.len(), 0);
    let none = Usage { session: None, weekly: None, fetched_ago: Duration::from_secs(0) };
    assert_eq!(usage_lines(&t, &Some(none), false, 34).lines.len(), 0);

    let fresh = usage_lines(&t, &Some(usage(1200)), false, 34);
    assert_eq!(fresh.lines.len(), 5);
    assert_eq!(plain(&fresh.lines[0]).trim_end(), " LIMITS");
    let stale = usage_lines(&t, &Some(usage(1201)), false, 34);
    assert_eq!(plain(&stale.lines[0]), format!(" LIMITS{}20m ago ", " ".repeat(19)));
    let asked = usage_lines(&t, &Some(usage(1201)), true, 34);
    assert_eq!(plain(&asked.lines[0]), format!(" LIMITS{}refreshing ", " ".repeat(16)));
    assert_eq!(fg(&asked.lines[0], 2), Some(t.faint));

    let one = Usage { weekly: None, ..usage(0) };
    assert_eq!(usage_lines(&t, &Some(one), false, 34).lines.len(), 3);
}

#[test]
fn a_card_says_what_a_session_is_and_does() {
    let mut a = app(Mode::Nav);
    a.sessions.push(session("alpha"));
    a.sessions.push(session("beta"));
    a.sessions[0].entry = Some(entry("a name longer than sixteen", "busy", ""));
    a.sessions[1].is_alive = false;
    a.sessions[1].finished_for = Some(Duration::from_secs(18));
    let s = draw_sidebar(&a, Rect { x: 0, y: 0, width: 36, height: 20 });
    assert_eq!(s.items.items.len(), 3);
    let first = &s.items.items[0];
    assert_eq!(
        rows(first),
        [format!(" * a name longer t~{}F1", " ".repeat(12)), "   alpha busy 5m".to_string()]
    );
    assert!(first.lines[0].spans[3].style.bold);
    assert_eq!(fg(&first.lines[0], 1), Some(a.theme.busy));
    let second = &s.items.items[1];
    assert_eq!(
        rows(second),
        [format!(" x beta{}F2", " ".repeat(24)), "   beta gone in 42s 5m".to_string()]
    );
    assert!(!second.lines[0].spans[3].style.bold);
    assert_eq!(fg(&second.lines[1], 3), Some(a.theme.dead));
    // All rows but the buttons end in the same column, one short of the border.
    assert_eq!(width(&first.lines[0]), 33);
    assert_eq!(width(&second.lines[0]), 33);
    let button = &s.items.items[2];
    assert_eq!(rows(button), [format!(" + new session{}F3", " ".repeat(18))]);
    assert_eq!(width(&button.lines[0]), 34);
    assert_eq!(s.selected, Some(0));
}

#[test]
fn every_status_has_a_glyph() {
    let t = palette();
    for (status, glyph, words, color) in [
        ("busy", "*", "busy", t.busy),
        ("idle", "o", "idle", t.idle),
        ("waiting", "?", "ASKS", t.ask),
        ("odd", "-", "starting", t.muted),
    ] {
        let mut a = app(Mode::Nav);
        a.sessions.push(session("alpha"));
        a.sessions[0].entry = Some(entry("alpha", status, ""));
        let s = draw_sidebar(&a, Rect { x: 0, y: 0, width: 36, height: 20 });
        let card = &s.items.items[0];
        assert_eq!(card.lines[0].spans[1].text, glyph);
        assert_eq!(fg(&card.lines[0], 1), Some(color));
        assert_eq!(card.lines[1].spans[3].text, words);
    }
    // Spawned, but not in the registry yet.
    let mut a = app(Mode::Nav);
    a.sessions.push(session("alpha"));
    let s = draw_sidebar(&a, Rect { x: 0, y: 0, width: 36, height: 20 });
    assert_eq!(rows(&s.items.items[0])[1], "   alpha starting 5m");
    // Finished before its end was noticed: the whole time is left.
    a.sessions[0].is_alive = false;
    let s = draw_sidebar(&a, Rect { x: 0, y: 0, width: 36, height: 20 });
    assert_eq!(rows(&s.items.items[0])[1], "   alpha gone in 60s 5m");
}

#[test]
fn the_list_ends_in_buttons_and_foreign_sessions() {
    let mut a = app(Mode::Focus);
    for i in 0..9 {
        a.sessions.push(session(&format!("s{i}")));
    }
    a.sessions.push(session("tenth"));
    a.selected = 9;
    a.update_ready = true;
    a.foreign.push(entry("elsewhere", "waiting", "permission to run"));
    a.foreign.push(entry("other", "busy", "ignored"));
    a.foreign.push(entry("third", "waiting", ""));
    let s = draw_sidebar(&a, Rect { x: 0, y: 0, width: 36, height: 20 });
    let items = &s.items.items;
    // Ten cards, no button for a new session, the new build, a heading, three more.
    assert_eq!(items.len(), 15);
    assert_eq!(rows(&items[9])[0], format!(" - tenth{}", " ".repeat(25)));
    assert_eq!(rows(&items[10]), [format!(" ^ new build{}r", " ".repeat(21))]);
    assert_eq!(width(&items[10].lines[0]), 34);
    assert_eq!(rows(&items[11]), [" --- UNREACHABLE"]);
    assert_eq!(rows(&items[12]), [" ! elsewhere", "   src ASKS: permi~"]);
    assert_eq!(rows(&items[13]), [" ! other", "   src busy"]);
    assert_eq!(rows(&items[14]), [" ! third", "   src ASKS"]);
    assert!(items[12].lines[1].spans[3].style.dim);
    assert_eq!(fg(&items[12].lines[1], 3), Some(a.theme.ask));
    assert_eq!(fg(&items[13].lines[1], 3), Some(a.theme.busy));
    assert_eq!(s.selected, Some(9));
    assert_eq!(s.frame.border, a.theme.faint);
    assert_eq!(plain(s.frame.bottom.as_ref().unwrap()), " 10 of our own ");
    assert_eq!(plain(s.frame.title.as_ref().unwrap()), " ADA FLEET ");
    assert_eq!(s.highlight.bg, Some(a.theme.surface));
}

#[test]
fn an_empty_sidebar_says_so() {
    let a = app(Mode::Nav);
    let s = draw_sidebar(&a, Rect { x: 0, y: 0, width: 36, height: 20 });
    assert_eq!(s.items.items.len(), 1);
    assert_eq!(rows(&s.items.items[0]), ["", "  no sessions", "  press n"]);
    assert_eq!(s.selected, None);
    assert_eq!(s.frame.border, a.theme.accent);
    assert_eq!(s.limits.lines.len(), 0);
}

#[test]
fn a_short_sidebar_drops_whole_windows() {
    let mut a = app(Mode::Nav);
    a.usage = Some(usage(0));
    for (height, kept) in [(30, 5), (11, 5), (10, 3), (9, 3), (8, 0), (4, 0), (1, 0), (0, 0)] {
        let s = draw_sidebar(&a, Rect { x: 0, y: 0, width: 36, height });
        assert_eq!(s.limits.lines.len(), kept, "{height}");
        assert_eq!(usize::from(s.limits_area.height), kept);
        assert_eq!(s.list_area.height, height.saturating_sub(2) - kept as u16);
        if kept > 0 {
            assert_eq!(s.limits_area.y, s.list_area.y + s.list_area.height);
            assert_eq!(plain(&s.limits.lines[0]).trim_end(), " LIMITS");
        }
    }
}

fn terminal(a: &App) -> (String, String, String, Color) {
    match draw_pane(a) {
        Pane::Terminal { frame, cursor } => {
            assert_eq!(cursor.fg, Some(a.theme.accent));
            (
                plain(frame.title.as_ref().unwrap()),
                plain(frame.bottom.as_ref().unwrap()),
                plain(frame.bottom_right.as_ref().unwrap()),
                frame.border,
            )
        }
        Pane::Hint { .. } => panic!("no terminal"),
    }
}

#[test]
fn the_title_of_the_pane_says_what_there_is_to_know() {
    let mut a = app(Mode::Nav);
    a.sessions.push(session("alpha"));
    assert_eq!(
        terminal(&a),
        (" alpha  VIEW ONLY ".into(), " /home/me/alpha ".into(), " 80x24 ".into(), a.theme.faint)
    );
    a.mode = Mode::Focus;
    assert_eq!(terminal(&a).0, " alpha  FOCUS — F10 leaves ");
    assert_eq!(terminal(&a).3, a.theme.accent);
    a.sessions[0].entry = Some(entry("alpha", "waiting", "a file"));
    a.sessions[0].prompt_pending = true;
    a.sessions[0].scrollback = 12;
    a.sessions[0].queued_input = 2048;
    assert_eq!(
        terminal(&a).0,
        " alpha  FOCUS — F10 leaves  QUESTION — a file  understand project…  ^12  pasting 2 KB "
    );
    a.sessions[0].entry = Some(entry("alpha", "waiting", ""));
    a.sessions[0].is_alive = false;
    a.sessions[0].prompt_pending = false;
    a.sessions[0].scrollback = 0;
    a.sessions[0].queued_input = 0;
    assert_eq!(terminal(&a).0, " alpha  FINISHED  QUESTION ");
    a.sessions[0].cwd = "/".repeat(50);
    assert_eq!(terminal(&a).1, format!(" ~{} ", "/".repeat(43)));
}

#[test]
fn a_pane_without_a_session_says_what_to_do() {
    let a = app(Mode::Nav);
    match draw_pane(&a) {
        Pane::Hint { lines, frame } => {
            assert_eq!(
                rows(&lines),
                [
                    "", "No sessions running.", "", "n  new session in a directory you pick",
                    "?  keyboard shortcuts", "q  quit",
                ]
            );
            assert_eq!(frame.border, a.theme.faint);
            assert!(frame.title.is_none());
        }
        Pane::Terminal { .. } => panic!("no hint"),
    }
    // The cursor may stand beyond the last session.
    let mut b = app(Mode::Nav);
    b.sessions.push(session("alpha"));
    b.selected = 1;
    assert!(matches!(draw_pane(&b), Pane::Hint { .. }));
}

#[test]
fn only_the_pane_taking_keystrokes_shows_a_cursor() {
    let mut a = app(Mode::Focus);
    assert!(!cursor_visible(&a, false));
    a.sessions.push(session("alpha"));
    assert!(cursor_visible(&a, false));
    assert!(!cursor_visible(&a, true));
    a.mode = Mode::Nav;
    assert!(!cursor_visible(&a, false));
    a.mode = Mode::Focus;
    a.sessions[0].is_alive = false;
    assert!(!cursor_visible(&a, false));
}

#[test]
fn the_status_bar_says_what_the_keys_do() {
    for (mode, update, expected) in [
        (Mode::Nav, false, " up/dn select   enter focus   n new   R resume a conversation   u understand project   x kill   ? help   q quit   "),
        (Mode::Nav, true, " r RESTART INTO THE NEW BUILD   up/dn select   enter focus   n new   u understand project   q quit   "),
        (Mode::Focus, true, "  F10  LEAVE FOCUS   F1-F9 session   F11 new   F12 help   "),
        (Mode::NewSession, false, " enter start   up/dn recent   esc cancel   "),
        (Mode::Help, false, " any key close   "),
        (Mode::ConfirmKill, false, " y yes   n/esc no   "),
        (Mode::ConfirmMkdir, false, " y/enter create it   n/esc back to the path   "),
        (Mode::ConfirmRestart, false, " y restart   n/esc leave it   "),
        (Mode::Resume, false, " enter resume   up/dn pick a conversation   esc close   "),
        (Mode::Understand, false, " F1-F9 that session   u new session   n new, pick a directory   enter the selected one   esc cancel   "),
    ] {
        let mut a = app(mode);
        a.update_ready = update;
        let l = draw_status(&a);
        assert_eq!(plain(&l), expected);
        let chip = mode == Mode::Focus;
        let t = &a.theme;
        assert_eq!(l.spans[1].style.bg, if chip { Some(t.accent) } else { None });
        assert_eq!(l.spans[1].style.fg, Some(if chip { t.surface } else { t.accent }));
        if l.spans.len() > 4 {
            assert_eq!(l.spans[4].style.bg, None);
        }
    }
    let mut a = app(Mode::Nav);
    a.status = Some("saved".into());
    assert_eq!(plain(&draw_status(&a)), " > saved");
}

fn form(n: usize, cursor: usize) -> Form {
    Form {
        input: "/tmp".into(),
        cursor,
        recent: (0..n)
            .map(|i| Recent { file_name: Some(format!("p{i}")), full: format!("/src/p{i}") })
            .collect(),
    }
}

#[test]
fn a_new_session_starts_from_a_form() {
    let mut a = app(Mode::NewSession);
    assert!(draw_new_session(&a, full()).is_none());
    a.form = Some(form(2, 0));
    let d = draw_new_session(&a, full()).unwrap();
    assert_eq!(d.area, Rect { x: 25, y: 26, width: 70, height: 8 });
    assert_eq!(
        rows(&d.lines),
        [
            " working directory:".to_string(),
            " > /tmp_".to_string(),
            String::new(),
            " recent projects:".to_string(),
            format!("   p0{}/src/p0", " ".repeat(20)),
            format!("   p1{}/src/p1", " ".repeat(20)),
        ]
    );
    assert!(d.lines.lines[1].spans[1].style.underlined);
    assert_eq!(plain(d.frame.title.as_ref().unwrap()), " new session ");

    a.form = Some(form(30, 12));
    a.form.as_mut().unwrap().recent[11] = Recent { file_name: None, full: "/".into() };
    let d = draw_new_session(&a, full()).unwrap();
    assert_eq!(d.area.height, 18);
    assert_eq!(d.lines.lines.len(), 16);
    assert_eq!(rows(&d.lines)[1], " > /tmp");
    assert!(!d.lines.lines[1].spans[1].style.underlined);
    assert_eq!(rows(&d.lines)[15], format!(" > /{}/", " ".repeat(21)));
    assert!(d.lines.lines[15].spans[1].style.bold);
}

#[test]
fn a_list_is_as_high_as_what_it_shows() {
    assert_eq!(height_for(0, 12, 6), 6);
    assert_eq!(height_for(5, 12, 6), 11);
    assert_eq!(height_for(12, 12, 6), 18);
    assert_eq!(height_for(13, 12, 6), 18);
    // The length is counted in sixteen bits.
    assert_eq!(height_for(65_536 + 3, 12, 6), 9);
}

#[test]
fn a_conversation_is_picked_from_a_list() {
    let mut a = app(Mode::Resume);
    assert!(draw_resume(&a, full()).is_none());
    let talk = |what: &str, ago: i64| Conversation {
        cwd_label: "a directory of some length".into(),
        summary: what.into(),
        modified: Moment::new(1_000_000 - ago, 0),
    };
    a.resume = Some(Picker { items: vec![talk("fix it", 720), talk(&"x".repeat(90), 5)], cursor: 1 });
    let d = draw_resume(&a, full()).unwrap();
    assert_eq!(d.area, Rect { x: 14, y: 27, width: 92, height: 6 });
    assert_eq!(
        rows(&d.lines),
        [
            " enter resumes, esc closes".to_string(),
            format!("   a directory of s~ fix it{}  12m", " ".repeat(57)),
            format!(" > a directory of s~ {}~  now", "x".repeat(62)),
        ]
    );
    for l in &d.lines.lines[1..] {
        assert!(width(l) <= 90);
    }
    // A narrow terminal shortens the summary.
    let narrow = draw_resume(&a, Rect { x: 0, y: 0, width: 40, height: 10 }).unwrap();
    for l in &narrow.lines.lines[1..] {
        assert!(width(l) <= 38);
        assert!(plain(l).ends_with(" 12m") || plain(l).ends_with(" now"));
    }
    let many = Picker { items: (0..25).map(|_| talk("x", 0)).collect(), cursor: 24 };
    a.resume = Some(many);
    let d = draw_resume(&a, full()).unwrap();
    assert_eq!(d.lines.lines.len(), 21);
    assert_eq!(d.area.height, 24);
}

#[test]
fn questions_stand_in_the_middle() {
    let mut a = app(Mode::ConfirmKill);
    assert_eq!(rows(&draw_confirm_kill(&a, full()).lines)[1], "  kill session ?  ");
    a.sessions.push(session("alpha"));
    a.sessions.push(session("beta"));
    a.sessions[1].is_alive = false;
    let kill = draw_confirm_kill(&a, full());
    assert_eq!(rows(&kill.lines), ["", "  kill session alpha?  ", "  y = yes      n / esc = no"]);
    assert_eq!(kill.area, Rect { x: 37, y: 27, width: 46, height: 5 });
    assert_eq!(kill.frame.border, a.theme.dead);

    let restart = draw_confirm_restart(&a, full());
    assert_eq!(
        rows(&restart.lines),
        [
            "",
            "  restart the fleet into the new build",
            "  1 sessions will die — a child does not outlive the owner",
            "  of its pseudoconsole. They come back in the same directories.",
            "",
            "  y = restart      n / esc = leave it",
        ]
    );
    assert_eq!(restart.area, Rect { x: 29, y: 26, width: 62, height: 8 });
    assert_eq!(restart.frame.border, a.theme.ask);

    assert!(draw_confirm_mkdir(&a, full()).is_none());
    a.pending_mkdir = Some("/".repeat(70));
    let mkdir = draw_confirm_mkdir(&a, full()).unwrap();
    assert_eq!(
        rows(&mkdir.lines),
        [
            String::new(),
            "  directory does not exist:".to_string(),
            format!("  ~{}", "/".repeat(57)),
            String::new(),
            "  create it?   y / enter = yes      n / esc = no".to_string(),
        ]
    );
    assert_eq!(mkdir.area, Rect { x: 28, y: 26, width: 64, height: 7 });
}

#[test]
fn the_shortcuts_fill_their_dialog() {
    let a = app(Mode::Help);
    let d = draw_help(&a.theme, &a.assistant, full());
    assert_eq!(d.area, Rect { x: 28, y: 6, width: 64, height: 48 });
    assert!(d.wrap);
    let all = rows(&d.lines);
    assert_eq!(all.len(), 46);
    assert_eq!(all[0], "  -- NAVIGATION --");
    assert_eq!(all[1], "  up/down, j/k        select a session");
    assert_eq!(all[19], "  everything else     goes to Ada, including Ctrl+anything");
    assert_eq!(all[30], "  ~/.ada/fleet.toml — colours, labels, timings");
    assert_eq!(all[45], "  their PTY belongs to another terminal");
    assert_eq!(fg(&d.lines.lines[0], 0), Some(a.theme.accent_dim));
    assert_eq!(fg(&d.lines.lines[1], 0), Some(a.theme.accent));
    assert_eq!(fg(&d.lines.lines[1], 1), Some(a.theme.text));
}

#[test]
fn the_mode_decides_which_dialogs_stand_over_the_screen() {
    let titles = |mode: Mode| -> Vec<u16> {
        let mut a = app(mode);
        a.form = Some(form(1, 0));
        a.resume = Some(Picker { items: Vec::new(), cursor: 0 });
        a.pending_mkdir = Some("/x".into());
        let p = draw(&a, full());
        assert_eq!(p.sidebar.area, Rect { x: 0, y: 0, width: 36, height: 59 });
        assert_eq!(p.pane_area, Rect { x: 36, y: 0, width: 84, height: 59 });
        assert_eq!(p.status_area, Rect { x: 0, y: 59, width: 120, height: 1 });
        assert_eq!(plain(&p.status), plain(&draw_status(&a)));
        p.dialogs.iter().map(|d| d.area.width).collect()
    };
    assert!(titles(Mode::Nav).is_empty());
    assert!(titles(Mode::Focus).is_empty());
    assert!(titles(Mode::Understand).is_empty());
    assert_eq!(titles(Mode::NewSession), [70]);
    assert_eq!(titles(Mode::Help), [64]);
    assert_eq!(titles(Mode::ConfirmKill), [46]);
    assert_eq!(titles(Mode::ConfirmRestart), [62]);
    // The form stays visible under the question.
    assert_eq!(titles(Mode::ConfirmMkdir), [70, 64]);
    assert_eq!(titles(Mode::Resume), [92]);
}

#[test]
fn a_screen_beyond_the_coordinates_cannot_be_drawn() {
    let far = Rect { x: 65500, y: 0, width: 200, height: 60 };
    assert!(can_draw(&app(Mode::Nav), far));
    assert!(!can_draw(&app(Mode::Help), far));
    assert!(!can_draw(&app(Mode::ConfirmKill), far));
    assert!(can_draw(&app(Mode::NewSession), far));
    let mut a = app(Mode::NewSession);
    a.form = Some(form(1, 0));
    assert!(!can_draw(&a, far));
    assert!(can_draw(&a, full()));
}

#[test]
fn a_style_starts_from_nothing() {
    let s = Style::plain();
    assert!(s.fg.is_none() && s.bg.is_none() && !s.bold && !s.dim && !s.underlined);
}

#[test]
fn a_wait_for_a_reader_that_is_gone_is_sat_out() {
    assert_eq!(outcome(Waited::Arrived(7)), (Some(7), false));
    assert_eq!(outcome::<u8>(Waited::TimedOut), (None, false));
    assert_eq!(outcome::<u8>(Waited::Gone), (None, true));
}

#[test]
fn the_name_of_the_assistant_makes_the_other_names() {
    assert_eq!(banner("Ada"), "ADA");
    assert_eq!(config_file("Ada"), "~/.ada/fleet.toml");
    assert_eq!(cache_file("Ada"), ".ada.json");
    let odd = "azAZ@[`{é 9";
    assert_eq!(banner(odd), odd.to_ascii_uppercase());
    assert_eq!(cache_file(odd), format!(".{}.json", odd.to_ascii_lowercase()));
}
