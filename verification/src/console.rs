//! The whole console as one frame-driven state machine.
//!
//! The host scheduler calls [`ConsoleCore::frame_step`] once per rendering
//! frame with that frame's polled keys, typed characters and elapsed time;
//! the returned actions tell the host which callback handle to invoke, if
//! any, and whether to drop its own buffered input events. The steps run in
//! the fixed relative order toggle detection, animation, input routing,
//! dispatch; a host that schedules the steps itself can call the step
//! functions of the other modules directly instead.

use vstd::prelude::*;
use crate::animation::{move_console, spec_move, CLOSED_TOP, OPEN_TOP};
use crate::dispatch::{run_cmd, spec_dispatch, CommandArgs, DispatchOutcome};
use crate::input::{route_input, text_input, FrameKeys};
use crate::registry::CommandMap;
use crate::state::{spec_toggle, toggle, CmdTrigger, ConsoleState};
use crate::text::str_to_chars;

verus! {

/// Everything the host hands the console for one frame: the just-pressed
/// edit keys, the characters typed during the frame in order, and the
/// frame's elapsed time in whole milliseconds.
pub struct FrameInput {
    pub keys: FrameKeys,
    pub chars: Vec<char>,
    pub dt_ms: u32,
}

/// What the host must do after a frame: invoke the callback registered
/// under this handle, if any, and drop its buffered character events when
/// `clear_events` is set (exactly once, when the opening animation
/// completes, so keystrokes from before the console finished opening do not
/// leak into the input line).
#[derive(Debug, Copy, Clone, PartialEq, Eq, Structural)]
pub struct FrameActions {
    pub invoke: Option<u64>,
    pub clear_events: bool,
}

/// The process-wide console context: the panel state and offset, the
/// dispatch trigger, the input line, the append-only transcript, the most
/// recently submitted command line, and the command registry.
pub struct ConsoleCore {
    pub state: ConsoleState,
    pub trigger: CmdTrigger,
    pub top: i32,
    pub input: Vec<char>,
    pub transcript: Vec<char>,
    pub pending: CommandArgs,
    pub map: CommandMap,
}

impl ConsoleCore {
    /// The console's invariant: the panel offset stays within its coordinate
    /// bounds and the registry holds no duplicate names.
    pub open spec fn wf(self) -> bool {
        CLOSED_TOP <= self.top <= OPEN_TOP && self.map.wf()
    }

    /// A fresh console: closed, fully hidden, idle, with empty buffers, and
    /// with the one automatic registry entry — the `help` command, under the
    /// handle the host registered for its help callback.
    pub fn new(help_handle: u64) -> (r: Self)
        ensures
            r.wf(),
            r.state == ConsoleState::Closed,
            r.trigger == CmdTrigger::Ready,
            r.top == CLOSED_TOP,
            r.input@ == Seq::<char>::empty(),
            r.transcript@ == Seq::<char>::empty(),
            r.pending.0@ == Seq::<char>::empty(),
            r.map.names() == Seq::<Seq<char>>::empty().push("help"@),
            r.map.spec_get("help"@) == Some(help_handle),
            forall|k: Seq<char>| k != "help"@ ==> r.map.spec_get(k) == None::<u64>,
    {
        let mut map = CommandMap::new();
        let name = str_to_chars("help");
        map.add_cmd(name, help_handle);
        ConsoleCore {
            state: ConsoleState::Closed,
            trigger: CmdTrigger::Ready,
            top: CLOSED_TOP,
            input: Vec::new(),
            transcript: Vec::new(),
            pending: CommandArgs(Vec::new()),
            map,
        }
    }

    /// Register a callback handle under a command name; see
    /// [`CommandMap::add_cmd`]. The previous handle under that name, if any,
    /// is returned.
    pub fn add_cmd(&mut self, name: Vec<char>, handle: u64) -> (prev: Option<u64>)
        requires
            old(self).wf(),
        ensures
            final(self).wf(),
            *final(self) == (ConsoleCore { map: final(self).map, ..*old(self) }),
            prev == old(self).map.spec_get(name@),
            final(self).map.spec_get(name@) == Some(handle),
            forall|k: Seq<char>|
                k != name@ ==> final(self).map.spec_get(k) == old(self).map.spec_get(k),
            old(self).map.spec_contains(name@) ==> final(self).map.names() == old(
                self).map.names(),
            !old(self).map.spec_contains(name@) ==> final(self).map.names() == old(
                self).map.names().push(name@),
    {
        self.map.add_cmd(name, handle)
    }

    /// Run one frame of the console, in the host scheduler's fixed step
    /// order.
    ///
    /// First a toggle press is applied to the state (accepted only from the
    /// terminal states). Then the panel animates and may complete, clamping
    /// its offset and reaching a terminal state. Then, while the console is
    /// open — and not on the very frame the opening completed, whose
    /// buffered characters are discarded — the frame's keys and characters
    /// are routed to the input line and transcript; a submission publishes
    /// the line as the pending command text and raises the trigger. Last,
    /// a raised trigger is consumed, exactly once: the pending line is
    /// dispatched, naming the handle to invoke or reporting an unknown
    /// command on the transcript.
    pub fn frame_step(&mut self, frame: &FrameInput) -> (r: FrameActions)
        requires
            old(self).wf(),
        ensures
            final(self).wf(),
            final(self).map == old(self).map,
            final(self).trigger == CmdTrigger::Ready,
            ({
                let s1 = if frame.keys.backquote {
                    spec_toggle(old(self).state)
                } else {
                    old(self).state
                };
                let (top2, s2, clear) = spec_move(s1, old(self).top as int, frame.dt_ms as int);
                let (inp3, tr3, sub) = if s2 == ConsoleState::Open && !clear {
                    route_input(
                        frame.keys,
                        frame.chars@,
                        old(self).map.names(),
                        old(self).input@,
                        old(self).transcript@,
                    )
                } else {
                    (old(self).input@, old(self).transcript@, None::<Seq<char>>)
                };
                let trig3 = if sub is Some {
                    CmdTrigger::Fired
                } else {
                    old(self).trigger
                };
                let pend3 = if sub is Some {
                    sub.unwrap()
                } else {
                    old(self).pending.0@
                };
                let (tr4, inv) = if trig3 == CmdTrigger::Fired {
                    let (t, outcome) = spec_dispatch(pend3, old(self).map, tr3);
                    (
                        t,
                        match outcome {
                            DispatchOutcome::Invoke(h) => Some(h),
                            DispatchOutcome::NotFound => None::<u64>,
                        },
                    )
                } else {
                    (tr3, None::<u64>)
                };
                final(self).state == s2 && final(self).top as int == top2 && final(self).input@
                    == inp3 && final(self).transcript@ == tr4 && final(self).pending.0@ == pend3
                    && r == (FrameActions { invoke: inv, clear_events: clear })
            }),
    {
        if frame.keys.backquote {
            self.state = toggle(self.state);
        }
        let step = move_console(self.state, self.top, frame.dt_ms);
        self.top = step.top;
        self.state = step.state;
        let clear_events = step.clear_events;

        if matches!(self.state, ConsoleState::Open) && !clear_events {
            let submitted = text_input(
                &frame.keys,
                &frame.chars,
                &self.map,
                &mut self.input,
                &mut self.transcript,
            );
            if let Some(args) = submitted {
                self.pending = args;
                self.trigger = CmdTrigger::Fired;
            }
        }

        let invoke: Option<u64> = if matches!(self.trigger, CmdTrigger::Fired) {
            self.trigger = CmdTrigger::Ready;
            match run_cmd(&self.pending, &self.map, &mut self.transcript) {
                DispatchOutcome::Invoke(h) => Some(h),
                DispatchOutcome::NotFound => None,
            }
        } else {
            None
        };

        FrameActions { invoke, clear_events }
    }
}

} // verus!
