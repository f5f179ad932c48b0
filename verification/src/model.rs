//! What a frame is drawn from: the state of the fleet at one moment, as plain
//! values.

use vstd::prelude::*;

use crate::theme::Theme;
use crate::time::{Duration, Moment};
use crate::usage::Usage;

verus! {

/// What the keyboard does.
#[derive(Clone, Copy, Debug, PartialEq, Eq, Structural)]
pub enum Mode {
    Nav,
    Focus,
    NewSession,
    Help,
    ConfirmKill,
    ConfirmMkdir,
    ConfirmRestart,
    Resume,
    Understand,
}

/// What the registry says of a session.
pub struct Entry {
    pub name: String,
    /// `busy`, `idle`, `waiting`, or anything else a session writes.
    pub status: String,
    /// The session has stopped on a question.
    pub is_waiting: bool,
    /// What the question is about, when the session says so.
    pub waiting_for: String,
    /// The directory it works in, in short.
    pub cwd_label: String,
}

/// A session of our own.
pub struct Session {
    pub label: String,
    /// The directory it works in, and the same in short.
    pub cwd: String,
    pub cwd_label: String,
    pub is_alive: bool,
    /// How long ago it finished, once it has.
    pub finished_for: Option<Duration>,
    /// How long ago it was started.
    pub running_for: Duration,
    /// What the registry says of it, once it has an entry there.
    pub entry: Option<Entry>,
    pub prompt_pending: bool,
    /// How many rows the pane is scrolled back.
    pub scrollback: usize,
    /// How many bytes wait to be written to it.
    pub queued_input: usize,
    pub cols: u16,
    pub rows: u16,
}

/// What the states of a session are called.
pub struct Labels {
    pub busy: String,
    pub idle: String,
    pub waiting: String,
    pub starting: String,
}

/// A directory sessions were started in before.
pub struct Recent {
    /// The last component, when the path has one.
    pub file_name: Option<String>,
    pub full: String,
}

/// The form a new session is started from. The cursor stands on the input, or
/// on one of the recent directories below it.
pub struct Form {
    pub input: String,
    pub cursor: usize,
    pub recent: Vec<Recent>,
}

/// A conversation that can be taken up again.
pub struct Conversation {
    pub cwd_label: String,
    pub summary: String,
    /// When it was last alive.
    pub modified: Moment,
}

/// The list of past conversations.
pub struct Picker {
    pub items: Vec<Conversation>,
    pub cursor: usize,
}

/// The state of the fleet.
pub struct App {
    pub mode: Mode,
    pub sessions: Vec<Session>,
    pub selected: usize,
    /// Sessions that were started outside the fleet.
    pub foreign: Vec<Entry>,
    /// A newer build of the fleet can be started.
    pub update_ready: bool,
    pub usage: Option<Usage>,
    pub usage_refreshing: bool,
    /// A message in place of the hints.
    pub status: Option<String>,
    pub form: Option<Form>,
    pub resume: Option<Picker>,
    pub pending_mkdir: Option<String>,
    pub theme: Theme,
    pub labels: Labels,
    /// What the assistant behind the sessions is called.
    pub assistant: String,
    /// How long the card of a finished session stays.
    pub finished_ttl: Duration,
    pub now: Moment,
}

/// The session the cursor stands on.
pub open spec fn chosen(app: App) -> Option<Session> {
    if app.selected < app.sessions@.len() {
        Some(app.sessions@[app.selected as int])
    } else {
        None
    }
}

impl App {
    /// The session the cursor stands on.
    pub fn selected_session(&self) -> (r: Option<&Session>)
        ensures
            chosen(*self) == match r {
                Some(s) => Some(*s),
                None => None,
            },
    {
        if self.selected < self.sessions.len() {
            Some(&self.sessions[self.selected])
        } else {
            None
        }
    }
}

} // verus!
