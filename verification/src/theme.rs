//! Colour palette, kept in one place so panes and chrome stay consistent.
//!
//! The values themselves come from the configuration and can change while the
//! fleet runs, so a frame is drawn with the palette it is handed and reads it
//! through these accessors.

use ratatui::style::Color;
use vstd::prelude::*;

verus! {

/// `ratatui::style::Color`, which is only handed on here.
#[verifier::external_type_specification]
#[verifier::external_body]
pub struct ExColor(ratatui::style::Color);

/// The palette a frame is drawn with.
pub struct Theme {
    pub accent: Color,
    pub accent_dim: Color,
    pub text: Color,
    pub muted: Color,
    pub faint: Color,
    pub busy: Color,
    pub idle: Color,
    pub ask: Color,
    pub dead: Color,
    pub surface: Color,
    pub bar: Color,
    pub bar_empty: Color,
}

pub fn accent(t: &Theme) -> (c: Color)
    ensures
        c == t.accent,
{
    t.accent
}

pub fn accent_dim(t: &Theme) -> (c: Color)
    ensures
        c == t.accent_dim,
{
    t.accent_dim
}

pub fn text(t: &Theme) -> (c: Color)
    ensures
        c == t.text,
{
    t.text
}

pub fn muted(t: &Theme) -> (c: Color)
    ensures
        c == t.muted,
{
    t.muted
}

pub fn faint(t: &Theme) -> (c: Color)
    ensures
        c == t.faint,
{
    t.faint
}

pub fn busy(t: &Theme) -> (c: Color)
    ensures
        c == t.busy,
{
    t.busy
}

pub fn idle(t: &Theme) -> (c: Color)
    ensures
        c == t.idle,
{
    t.idle
}

/// A session stopped on a question of its own: a permission prompt, a dialog,
/// anything waiting on a keypress that only the user can supply.
pub fn ask(t: &Theme) -> (c: Color)
    ensures
        c == t.ask,
{
    t.ask
}

pub fn dead(t: &Theme) -> (c: Color)
    ensures
        c == t.dead,
{
    t.dead
}

pub fn surface(t: &Theme) -> (c: Color)
    ensures
        c == t.surface,
{
    t.surface
}

/// The filled part of a limit bar.
pub fn bar(t: &Theme) -> (c: Color)
    ensures
        c == t.bar,
{
    t.bar
}

/// The unfilled part of the same bar, dim enough to read as empty and bright
/// enough not to vanish into the background.
pub fn bar_empty(t: &Theme) -> (c: Color)
    ensures
        c == t.bar_empty,
{
    t.bar_empty
}

} // verus!
