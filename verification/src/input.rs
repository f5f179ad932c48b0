//! What comes of waiting for an event.

use vstd::prelude::*;

verus! {

/// How a wait for an event ended.
#[derive(Debug)]
pub enum Waited<E> {
    Arrived(E),
    TimedOut,
    /// The reader is gone, so no event is ever coming.
    Gone,
}

/// What a wait comes to: the event, if there was one, and whether the timeout
/// is still to be sat out. A wait for a reader that is gone ends at once;
/// handing that on as it is would spin the event loop.
pub fn outcome<E>(w: Waited<E>) -> (r: (Option<E>, bool))
    ensures
        r == match w {
            Waited::Arrived(e) => (Some(e), false),
            Waited::TimedOut => (None::<E>, false),
            Waited::Gone => (None::<E>, true),
        },
{
    match w {
        Waited::Arrived(e) => (Some(e), false),
        Waited::TimedOut => (None, false),
        Waited::Gone => (None, true),
    }
}

} // verus!
