use dev_console::animation::{move_console, CLOSED_TOP, OPEN_TOP};
use dev_console::console::{ConsoleCore, FrameInput};
use dev_console::dispatch::{first_token, run_cmd, CommandArgs, DispatchOutcome};
use dev_console::help::help;
use dev_console::input::{text_input, FrameKeys};
use dev_console::registry::CommandMap;
use dev_console::state::{toggle, ConsoleState};

fn cv(s: &str) -> Vec<char> {
    s.chars().collect()
}

fn no_keys() -> FrameKeys {
    FrameKeys { enter: false, backspace: false, tab: false, backquote: false }
}

fn sample_map() -> CommandMap {
    let mut map = CommandMap::new();
    map.add_cmd(cv("help"), 1);
    map.add_cmd(cv("hello"), 2);
    map
}

#[test]
fn typed_characters_append_in_order() {
    let map = CommandMap::new();
    let mut input = Vec::new();
    let mut transcript = Vec::new();
    let sub = text_input(&no_keys(), &cv("spawn"), &map, &mut input, &mut transcript);
    assert!(sub.is_none());
    assert_eq!(input, cv("spawn"));
    assert_eq!(transcript, cv(""));
    let sub = text_input(&no_keys(), &cv(" 12"), &map, &mut input, &mut transcript);
    assert!(sub.is_none());
    assert_eq!(input, cv("spawn 12"));
}

#[test]
fn control_characters_are_filtered() {
    let map = CommandMap::new();
    let mut input = Vec::new();
    let mut transcript = Vec::new();
    let chars = vec!['a', '\u{7}', 'b', '\t', '\u{9b}', 'c'];
    text_input(&no_keys(), &chars, &map, &mut input, &mut transcript);
    assert_eq!(input, cv("abc"));
}

#[test]
fn backspace_removes_last_character() {
    let map = CommandMap::new();
    let mut input = cv("ab");
    let mut transcript = Vec::new();
    let keys = FrameKeys { backspace: true, ..no_keys() };
    let sub = text_input(&keys, &cv("x"), &map, &mut input, &mut transcript);
    assert!(sub.is_none());
    assert_eq!(input, cv("a"));
}

#[test]
fn backspace_on_empty_buffer_leaves_it_empty() {
    let map = CommandMap::new();
    let mut input = Vec::new();
    let mut transcript = cv("old");
    let keys = FrameKeys { backspace: true, ..no_keys() };
    text_input(&keys, &cv(""), &map, &mut input, &mut transcript);
    assert_eq!(input, cv(""));
    assert_eq!(transcript, cv("old"));
}

#[test]
fn enter_takes_buffer_and_echoes_it() {
    let map = CommandMap::new();
    let mut input = cv("help me");
    let mut transcript = cv("> ");
    let keys = FrameKeys { enter: true, ..no_keys() };
    let sub = text_input(&keys, &cv("zz"), &map, &mut input, &mut transcript);
    assert_eq!(input, cv(""));
    assert_eq!(transcript, cv("> help me\n"));
    let args = sub.expect("enter must submit the line");
    assert_eq!(args.0, cv("help me"));
}

#[test]
fn toggle_key_frame_changes_nothing() {
    let map = CommandMap::new();
    let mut input = cv("he");
    let mut transcript = cv("t");
    let keys = FrameKeys { backquote: true, ..no_keys() };
    let sub = text_input(&keys, &cv("`"), &map, &mut input, &mut transcript);
    assert!(sub.is_none());
    assert_eq!(input, cv("he"));
    assert_eq!(transcript, cv("t"));
}

#[test]
fn tab_lists_matching_commands() {
    let map = sample_map();
    let mut input = cv("he");
    let mut transcript = Vec::new();
    let keys = FrameKeys { tab: true, ..no_keys() };
    let sub = text_input(&keys, &cv("x"), &map, &mut input, &mut transcript);
    assert!(sub.is_none());
    assert_eq!(transcript, cv("help hello \n"));
    assert_eq!(input, cv("he"));
}

#[test]
fn tab_without_match_reports_it() {
    let map = sample_map();
    let mut input = cv("zz");
    let mut transcript = Vec::new();
    let keys = FrameKeys { tab: true, ..no_keys() };
    text_input(&keys, &cv(""), &map, &mut input, &mut transcript);
    assert_eq!(transcript, cv("No commands start with that.\n"));
    assert_eq!(input, cv("zz"));
}

#[test]
fn first_token_splits_on_first_space() {
    assert_eq!(first_token(&cv("help me now")), cv("help"));
    assert_eq!(first_token(&cv("help")), cv("help"));
    assert_eq!(first_token(&cv("")), cv(""));
    assert_eq!(first_token(&cv("   ")), cv(""));
}

#[test]
fn dispatch_finds_registered_command() {
    let map = sample_map();
    let mut transcript = Vec::new();
    let r = run_cmd(&CommandArgs(cv("hello world")), &map, &mut transcript);
    assert_eq!(r, DispatchOutcome::Invoke(2));
    assert_eq!(transcript, cv(""));
}

#[test]
fn dispatch_reports_unknown_command() {
    let map = sample_map();
    let mut transcript = Vec::new();
    let r = run_cmd(&CommandArgs(cv("warp 3")), &map, &mut transcript);
    assert_eq!(r, DispatchOutcome::NotFound);
    assert_eq!(transcript, cv("Command not found: warp\n"));
}

#[test]
fn empty_submission_is_not_found() {
    let map = sample_map();
    let mut transcript = Vec::new();
    let r = run_cmd(&CommandArgs(cv("")), &map, &mut transcript);
    assert_eq!(r, DispatchOutcome::NotFound);
    assert_eq!(transcript, cv("Command not found: \n"));
}

#[test]
fn whitespace_submission_is_not_found() {
    let map = sample_map();
    let mut transcript = Vec::new();
    let r = run_cmd(&CommandArgs(cv("   ")), &map, &mut transcript);
    assert_eq!(r, DispatchOutcome::NotFound);
    assert_eq!(transcript, cv("Command not found: \n"));
}

#[test]
fn help_lists_every_registered_command() {
    let map = sample_map();
    let mut transcript = Vec::new();
    help(&map, &mut transcript);
    assert_eq!(transcript, cv("Registered commands:\nhelp hello \n"));
}

#[test]
fn help_on_empty_registry() {
    let map = CommandMap::new();
    let mut transcript = Vec::new();
    help(&map, &mut transcript);
    assert_eq!(transcript, cv("Registered commands:\n\n"));
}

#[test]
fn add_cmd_returns_previous_handle_on_overwrite() {
    let mut map = CommandMap::new();
    assert_eq!(map.add_cmd(cv("help"), 1), None);
    assert_eq!(map.add_cmd(cv("spawn"), 2), None);
    assert_eq!(map.add_cmd(cv("help"), 9), Some(1));
    assert_eq!(map.get(&cv("help")), Some(9));
    assert_eq!(map.get(&cv("spawn")), Some(2));
    assert_eq!(map.get(&cv("warp")), None);
}

#[test]
fn closing_animation_moves_then_clamps() {
    let step = move_console(ConsoleState::AnimatingClosed, -100, 200);
    assert_eq!(step.top, -300);
    assert_eq!(step.state, ConsoleState::AnimatingClosed);
    assert!(!step.clear_events);
    let step = move_console(step.state, step.top, 200);
    assert_eq!(step.top, CLOSED_TOP);
    assert_eq!(step.state, ConsoleState::Closed);
    assert!(!step.clear_events);
}

#[test]
fn opening_animation_clamps_and_clears_events() {
    let step = move_console(ConsoleState::AnimatingOpen, -50, 20);
    assert_eq!(step.top, -30);
    assert_eq!(step.state, ConsoleState::AnimatingOpen);
    let step = move_console(step.state, step.top, 1000);
    assert_eq!(step.top, OPEN_TOP);
    assert_eq!(step.state, ConsoleState::Open);
    assert!(step.clear_events);
}

#[test]
fn terminal_states_do_not_move() {
    let step = move_console(ConsoleState::Closed, CLOSED_TOP, 500);
    assert_eq!(step.top, CLOSED_TOP);
    assert_eq!(step.state, ConsoleState::Closed);
    let step = move_console(ConsoleState::Open, OPEN_TOP, 500);
    assert_eq!(step.top, OPEN_TOP);
    assert_eq!(step.state, ConsoleState::Open);
}

#[test]
fn toggle_from_terminal_states() {
    assert_eq!(toggle(ConsoleState::Closed), ConsoleState::AnimatingOpen);
    assert_eq!(toggle(ConsoleState::Open), ConsoleState::AnimatingClosed);
}

#[test]
fn toggle_ignored_while_animating() {
    assert_eq!(toggle(ConsoleState::AnimatingOpen), ConsoleState::AnimatingOpen);
    assert_eq!(toggle(ConsoleState::AnimatingClosed), ConsoleState::AnimatingClosed);
}

fn quiet_frame(dt_ms: u32) -> FrameInput {
    FrameInput { keys: no_keys(), chars: Vec::new(), dt_ms }
}

#[test]
fn console_opens_over_several_frames() {
    let mut core = ConsoleCore::new(1);
    let toggle_frame = FrameInput {
        keys: FrameKeys { backquote: true, ..no_keys() },
        chars: vec!['`'],
        dt_ms: 100,
    };
    let acts = core.frame_step(&toggle_frame);
    assert_eq!(core.state, ConsoleState::AnimatingOpen);
    assert_eq!(core.top, -233);
    assert!(!acts.clear_events);
    core.frame_step(&quiet_frame(200));
    assert_eq!(core.top, -33);
    let acts = core.frame_step(&quiet_frame(200));
    assert_eq!(core.state, ConsoleState::Open);
    assert_eq!(core.top, 0);
    assert!(acts.clear_events);
}

#[test]
fn submitted_help_command_is_invoked() {
    let mut core = ConsoleCore::new(41);
    core.add_cmd(cv("spawn"), 42);
    core.state = ConsoleState::Open;
    core.top = 0;
    let typing = FrameInput { keys: no_keys(), chars: cv("help now"), dt_ms: 16 };
    core.frame_step(&typing);
    assert_eq!(core.input, cv("help now"));
    let enter = FrameInput {
        keys: FrameKeys { enter: true, ..no_keys() },
        chars: Vec::new(),
        dt_ms: 16,
    };
    let acts = core.frame_step(&enter);
    assert_eq!(acts.invoke, Some(41));
    assert_eq!(core.input, cv(""));
    assert_eq!(core.transcript, cv("help now\n"));
    assert_eq!(core.pending.0, cv("help now"));
    // The host resolves handle 41 to the built-in help callback.
    help(&core.map, &mut core.transcript);
    assert_eq!(core.transcript, cv("help now\nRegistered commands:\nhelp spawn \n"));
}

#[test]
fn submitted_unknown_command_is_reported() {
    let mut core = ConsoleCore::new(1);
    core.state = ConsoleState::Open;
    core.top = 0;
    let typing = FrameInput { keys: no_keys(), chars: cv("warp 9"), dt_ms: 16 };
    core.frame_step(&typing);
    let enter = FrameInput {
        keys: FrameKeys { enter: true, ..no_keys() },
        chars: Vec::new(),
        dt_ms: 16,
    };
    let acts = core.frame_step(&enter);
    assert_eq!(acts.invoke, None);
    assert_eq!(core.transcript, cv("warp 9\nCommand not found: warp\n"));
}

#[test]
fn characters_on_the_opening_frame_are_dropped() {
    let mut core = ConsoleCore::new(1);
    core.state = ConsoleState::AnimatingOpen;
    core.top = -1;
    let frame = FrameInput { keys: no_keys(), chars: cv("leak"), dt_ms: 16 };
    let acts = core.frame_step(&frame);
    assert_eq!(core.state, ConsoleState::Open);
    assert!(acts.clear_events);
    assert_eq!(core.input, cv(""));
}

#[test]
fn toggle_press_during_animation_is_ignored_by_frame_step() {
    let mut core = ConsoleCore::new(1);
    core.state = ConsoleState::AnimatingOpen;
    core.top = -100;
    let frame = FrameInput {
        keys: FrameKeys { backquote: true, ..no_keys() },
        chars: Vec::new(),
        dt_ms: 10,
    };
    core.frame_step(&frame);
    assert_eq!(core.state, ConsoleState::AnimatingOpen);
    assert_eq!(core.top, -90);
}
