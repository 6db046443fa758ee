//! A drop-down developer console core: a small state machine for the panel
//! animation, a per-frame input router for the command line, a registry of
//! named command handles, and a dispatcher that resolves a submitted line to
//! a handle. The host runtime owns rendering, input devices and the frame
//! scheduler; it drives these steps once per frame and carries out the
//! returned actions (invoking a handle, clearing buffered key events).

pub mod animation;
pub mod console;
pub mod dispatch;
pub mod help;
pub mod input;
pub mod registry;
pub mod state;
pub mod text;

pub use state::ConsoleState;
