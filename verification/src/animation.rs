//! Per-frame movement of the console panel.
//!
//! The panel's vertical offset is measured in tenths of a percent of its
//! coordinate space, so the fully hidden position of -33.3% is `-333` and the
//! fully shown position of 0% is `0`. While the panel is animating it moves at
//! a fixed speed of 100% per second toward its target; on reaching the bound
//! it is clamped exactly to the bound and the state advances to the matching
//! terminal state. Frame time arrives as whole milliseconds.

use vstd::prelude::*;
use crate::state::ConsoleState;

verus! {

/// Panel offset when the console is fully shown: 0% from the top.
pub const OPEN_TOP: i32 = 0;

/// Panel offset when the console is fully hidden: -33.3% from the top.
pub const CLOSED_TOP: i32 = -333;

/// Animation speed: 100% per second, in tenths of a percent per second.
pub const MOVE_SPEED: i32 = 1000;

/// How far the panel moves in a frame that lasted `dt_ms` milliseconds.
pub open spec fn anim_delta(dt_ms: int) -> int {
    (MOVE_SPEED as int) * dt_ms / 1000
}

/// One animation step as a value: the new offset, the new state, and
/// whether buffered character events must be discarded. Opening moves the
/// offset up by the frame's travel and clamps at `OPEN_TOP`, where the state
/// becomes `Open` and the event buffer must be dropped; closing moves it
/// down and clamps at `CLOSED_TOP`, where the state becomes `Closed`; a
/// terminal state changes nothing.
pub open spec fn spec_move(s: ConsoleState, top: int, dt_ms: int) -> (int, ConsoleState, bool) {
    if s == ConsoleState::AnimatingOpen {
        let moved = top + anim_delta(dt_ms);
        if moved >= OPEN_TOP {
            (OPEN_TOP as int, ConsoleState::Open, true)
        } else {
            (moved, s, false)
        }
    } else if s == ConsoleState::AnimatingClosed {
        let moved = top - anim_delta(dt_ms);
        if moved <= CLOSED_TOP {
            (CLOSED_TOP as int, ConsoleState::Closed, false)
        } else {
            (moved, s, false)
        }
    } else {
        (top, s, false)
    }
}

/// The result of one animation step: the new panel offset, the possibly
/// advanced state, and whether buffered character events must be discarded
/// (done exactly once, when the opening animation completes, so that
/// keystrokes from before the console finished opening do not leak into the
/// input line).
pub struct AnimStep {
    pub top: i32,
    pub state: ConsoleState,
    pub clear_events: bool,
}

/// Advance the panel by one frame.
///
/// While opening, the offset grows toward `OPEN_TOP`; on reaching or passing
/// it the offset is clamped to `OPEN_TOP`, the state becomes `Open`, and the
/// host is told to drop buffered character events. While closing, the offset
/// shrinks toward `CLOSED_TOP`; on reaching or passing it the offset is
/// clamped to `CLOSED_TOP` and the state becomes `Closed`. In a terminal
/// state nothing changes. The offset always stays within
/// `[CLOSED_TOP, OPEN_TOP]`.
pub fn move_console(state: ConsoleState, top: i32, dt_ms: u32) -> (r: AnimStep)
    requires
        CLOSED_TOP <= top <= OPEN_TOP,
    ensures
        CLOSED_TOP <= r.top <= OPEN_TOP,
        (r.top as int, r.state, r.clear_events) == spec_move(state, top as int, dt_ms as int),
{
    let delta: u64 = (MOVE_SPEED as u64) * (dt_ms as u64) / 1000;
    match state {
        ConsoleState::AnimatingOpen => {
            let gap: u64 = (0 - top) as u64;
            if delta >= gap {
                AnimStep { top: OPEN_TOP, state: ConsoleState::Open, clear_events: true }
            } else {
                AnimStep {
                    top: top + (delta as i32),
                    state: ConsoleState::AnimatingOpen,
                    clear_events: false,
                }
            }
        },
        ConsoleState::AnimatingClosed => {
            let gap: u64 = (top - CLOSED_TOP) as u64;
            if delta >= gap {
                AnimStep { top: CLOSED_TOP, state: ConsoleState::Closed, clear_events: false }
            } else {
                AnimStep {
                    top: top - (delta as i32),
                    state: ConsoleState::AnimatingClosed,
                    clear_events: false,
                }
            }
        },
        _ => AnimStep { top, state, clear_events: false },
    }
}

} // verus!
