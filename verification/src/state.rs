//! The console panel's animation state and the toggle rule.

use vstd::prelude::*;

verus! {

/// Where the console panel is in its open/close cycle. Exactly one value is
/// active at a time; transitions come from the toggle key and from animation
/// completion.
#[derive(Debug, Copy, Clone, PartialEq, Eq, Structural)]
pub enum ConsoleState {
    Closed,
    AnimatingOpen,
    AnimatingClosed,
    Open,
}

impl Default for ConsoleState {
    /// The console starts closed.
    fn default() -> (r: Self)
        ensures
            r == ConsoleState::Closed,
    {
        ConsoleState::Closed
    }
}

/// The one-frame-deferred dispatch trigger: a submission raises it to
/// `Fired`, and the dispatch step consumes it, resetting it to `Ready`, so
/// that each submission is dispatched exactly once and the pending command
/// text is fully published before the dispatcher reads it.
#[derive(Debug, Copy, Clone, PartialEq, Eq, Structural)]
pub enum CmdTrigger {
    Ready,
    Fired,
}

impl Default for CmdTrigger {
    /// The trigger starts lowered.
    fn default() -> (r: Self)
        ensures
            r == CmdTrigger::Ready,
    {
        CmdTrigger::Ready
    }
}

/// What a toggle press does to the panel state: it is accepted only from the
/// two terminal states, and ignored while an animation is in progress.
pub open spec fn spec_toggle(s: ConsoleState) -> ConsoleState {
    match s {
        ConsoleState::Closed => ConsoleState::AnimatingOpen,
        ConsoleState::Open => ConsoleState::AnimatingClosed,
        _ => s,
    }
}

/// Apply a press of the toggle key to the panel state. A closed console
/// starts opening, an open one starts closing, and a press during an
/// in-progress animation leaves the state unchanged.
pub fn toggle(s: ConsoleState) -> (r: ConsoleState)
    ensures
        r == spec_toggle(s),
{
    match s {
        ConsoleState::Closed => ConsoleState::AnimatingOpen,
        ConsoleState::Open => ConsoleState::AnimatingClosed,
        _ => s,
    }
}

/// A toggle press while the panel is animating, in either direction, is a
/// no-op for the state: presses are ignored until a terminal state is
/// reached.
pub proof fn lemma_toggle_ignored_while_animating(s: ConsoleState)
    requires
        s == ConsoleState::AnimatingOpen || s == ConsoleState::AnimatingClosed,
    ensures
        spec_toggle(s) == s,
{
}

} // verus!
