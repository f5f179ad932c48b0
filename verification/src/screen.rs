//! The whole screen: the sidebar, the pane, the status bar, and the dialogs
//! over them.

use vstd::prelude::*;

use crate::dialog::{draw_confirm_kill, draw_confirm_mkdir, draw_confirm_restart, draw_new_session,
    draw_resume, form_dialog, height_for, kill_dialog, list_height, mkdir_dialog, picker_dialog,
    restart_dialog, Dialog, DialogView};
use crate::help::{draw_help, help_dialog, HELP_HEIGHT};
use crate::layout::{can_center, has_middle, on_screen, parts, screen, Rect};
use crate::model::{chosen, App, Mode, Session};
use crate::paint::{chip, span, Line, LineView};
use crate::pane::{draw_pane, pane_of, pane_title, Pane, PaneView};
use crate::sidebar::{draw_sidebar, sidebar_of, Sidebar, SidebarView};
use crate::status::{draw_status, hint_row, hint_spans, hints_of, status_row};

verus! {

/// Everything on the screen. The dialogs stand over the rest, the last one on
/// top.
pub struct Picture {
    pub sidebar: Sidebar,
    pub pane_area: Rect,
    pub pane: Pane,
    pub status_area: Rect,
    pub status: Line,
    pub dialogs: Vec<Dialog>,
}

/// Everything on the screen.
pub struct PictureView {
    pub sidebar: SidebarView,
    pub pane_area: Rect,
    pub pane: PaneView,
    pub status_area: Rect,
    pub status: LineView,
    pub dialogs: Seq<DialogView>,
}

/// The dialogs, from the bottom up.
pub open spec fn dialog_views(v: Seq<Dialog>) -> Seq<DialogView> {
    Seq::new(v.len(), |i: int| v[i].view())
}

impl Picture {
    pub open spec fn view(&self) -> PictureView {
        PictureView {
            sidebar: self.sidebar.view(),
            pane_area: self.pane_area,
            pane: self.pane.view(),
            status_area: self.status_area,
            status: self.status.view(),
            dialogs: dialog_views(self.dialogs@),
        }
    }
}

/// The form, when there is one.
pub open spec fn form_dialogs(app: App, full: Rect) -> Seq<DialogView> {
    match app.form {
        Some(form) => seq![form_dialog(app.theme, form, full)],
        None => Seq::empty(),
    }
}

/// The question whether to create a directory, when one is to be created.
pub open spec fn mkdir_dialogs(app: App, full: Rect) -> Seq<DialogView> {
    match app.pending_mkdir {
        Some(path) => seq![mkdir_dialog(app.theme, path@, full)],
        None => Seq::empty(),
    }
}

/// The list of past conversations, when it is open.
pub open spec fn picker_dialogs(app: App, full: Rect) -> Seq<DialogView> {
    match app.resume {
        Some(picker) => seq![picker_dialog(app.theme, picker, full, app.now@)],
        None => Seq::empty(),
    }
}

/// The dialogs of a mode. The form stays visible under the question about a
/// directory: the question is about the path still standing in it.
pub open spec fn dialogs_of(app: App, full: Rect) -> Seq<DialogView> {
    match app.mode {
        Mode::NewSession => form_dialogs(app, full),
        Mode::Help => seq![help_dialog(app.theme, app.assistant@, full)],
        Mode::ConfirmKill => seq![kill_dialog(app, full)],
        Mode::ConfirmRestart => seq![restart_dialog(app, full)],
        Mode::ConfirmMkdir => form_dialogs(app, full) + mkdir_dialogs(app, full),
        Mode::Resume => picker_dialogs(app, full),
        _ => Seq::empty(),
    }
}

/// Everything on a screen.
pub open spec fn picture_of(app: App, full: Rect) -> PictureView {
    let s = parts(full);
    PictureView {
        sidebar: sidebar_of(app, s.sidebar),
        pane_area: s.pane,
        pane: pane_of(app),
        status_area: s.status,
        status: status_row(app),
        dialogs: dialogs_of(app, full),
    }
}

/// The form has a place in the middle of the screen.
pub open spec fn form_has_place(app: App, full: Rect) -> bool {
    app.form matches Some(form) ==> has_middle(70, list_height(form.recent@.len(), 12, 6), full)
}

/// The dialogs of a mode have a place in the middle of the screen.
pub open spec fn has_place(app: App, full: Rect) -> bool {
    match app.mode {
        Mode::NewSession => form_has_place(app, full),
        Mode::Help => has_middle(64, HELP_HEIGHT, full),
        Mode::ConfirmKill => has_middle(46, 5, full),
        Mode::ConfirmRestart => has_middle(62, 8, full),
        Mode::ConfirmMkdir => form_has_place(app, full) && (app.pending_mkdir is Some
            ==> has_middle(64, 7, full)),
        Mode::Resume => app.resume matches Some(picker) ==> has_middle(
            92,
            list_height(picker.items@.len(), 20, 4),
            full,
        ),
        _ => true,
    }
}

/// Whether the form has a place in the middle of the screen.
fn can_place_form(app: &App, full: Rect) -> (r: bool)
    ensures
        r == form_has_place(*app, full),
{
    match &app.form {
        Some(form) => can_center(70, height_for(form.recent.len(), 12, 6), full),
        None => true,
    }
}

/// Whether the dialogs of a mode have a place in the middle of the screen.
pub fn can_draw(app: &App, full: Rect) -> (r: bool)
    ensures
        r == has_place(*app, full),
{
    match app.mode {
        Mode::NewSession => can_place_form(app, full),
        Mode::Help => can_center(64, HELP_HEIGHT, full),
        Mode::ConfirmKill => can_center(46, 5, full),
        Mode::ConfirmRestart => can_center(62, 8, full),
        Mode::ConfirmMkdir => can_place_form(app, full) && (app.pending_mkdir.is_none()
            || can_center(64, 7, full)),
        Mode::Resume => match &app.resume {
            Some(picker) => can_center(92, height_for(picker.items.len(), 20, 4), full),
            None => true,
        },
        _ => true,
    }
}

/// Puts a dialog over the others.
fn push(dialogs: &mut Vec<Dialog>, d: Dialog)
    ensures
        dialog_views(final(dialogs)@) == dialog_views(old(dialogs)@).push(d.view()),
{
    dialogs.push(d);
    assert(dialog_views(dialogs@) =~= dialog_views(old(dialogs)@).push(d.view()));
}

/// The dialogs of a mode.
fn dialogs(app: &App, full: Rect) -> (r: Vec<Dialog>)
    requires
        has_place(*app, full),
    ensures
        dialog_views(r@) == dialogs_of(*app, full),
{
    let mut r: Vec<Dialog> = Vec::new();
    assert(dialog_views(r@) =~= Seq::empty());
    match app.mode {
        Mode::NewSession => {
            if let Some(d) = draw_new_session(app, full) {
                push(&mut r, d);
            }
        },
        Mode::Help => push(&mut r, draw_help(&app.theme, app.assistant.as_str(), full)),
        Mode::ConfirmKill => push(&mut r, draw_confirm_kill(app, full)),
        Mode::ConfirmRestart => push(&mut r, draw_confirm_restart(app, full)),
        Mode::ConfirmMkdir => {
            if let Some(d) = draw_new_session(app, full) {
                push(&mut r, d);
            }
            if let Some(d) = draw_confirm_mkdir(app, full) {
                push(&mut r, d);
            }
        },
        Mode::Resume => {
            if let Some(d) = draw_resume(app, full) {
                push(&mut r, d);
            }
        },
        _ => {},
    }
    r
}

/// Everything on a screen.
pub fn draw(app: &App, full: Rect) -> (r: Picture)
    requires
        has_place(*app, full),
    ensures
        r.view() == picture_of(*app, full),
{
    let s = screen(full);
    Picture {
        sidebar: draw_sidebar(app, s.sidebar),
        pane_area: s.pane,
        pane: draw_pane(app),
        status_area: s.status,
        status: draw_status(app),
        dialogs: dialogs(app, full),
    }
}

// ---------------------------------------------------------------------------
// What holds of the screen as a whole.

/// Every screen whose edges have coordinates can be drawn, whatever is on it.
pub proof fn law_every_screen_can_be_drawn(app: App, full: Rect)
    requires
        on_screen(full),
    ensures
        has_place(app, full),
{
}

/// A focused session always has the way out on the screen: in the title of the
/// pane whatever the status bar shows, and first in the status bar while no
/// message stands in it.
pub proof fn law_the_way_out_of_focus_is_on_the_screen(app: App, s: Session)
    requires
        app.mode == Mode::Focus,
        chosen(app) == Some(s),
        s.is_alive,
    ensures
        pane_of(app) matches PaneView::Terminal { frame, .. } && frame.title == Some(
            pane_title(app, s),
        ),
        pane_title(app, s)[1] == span(
            " FOCUS — F10 leaves "@,
            chip(app.theme.accent, app.theme.surface),
        ),
        app.status is None ==> status_row(app)[1] == span(
            " "@ + "F10"@ + " "@,
            chip(app.theme.accent, app.theme.surface),
        ),
{
    if app.status is None {
        let h = hints_of(app.mode, app.update_ready);
        assert(h.len() == 4);
        reveal_with_fuel(hint_row, 5);
        assert(hint_row(app, h, 4)[1] == hint_spans(app, 0, h[0])[0]);
    }
}

} // verus!
