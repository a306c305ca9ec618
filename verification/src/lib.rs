//! A terminal pager core: the view/input state machine and the text-matching
//! model behind it.
//!
//! The crate owns everything that has invariants worth proving: pattern
//! history navigation, match indexing, line filtering, span styling, and the
//! per-keystroke state transitions.  Terminal setup, rendering and file reads
//! live outside, and hand this library plain values.

pub mod app;
pub mod command;
pub mod help;
pub mod matching;
pub mod pattern_history;
pub mod styling;
pub mod terminal_state;
pub mod text_state;
