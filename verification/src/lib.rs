//! A terminal-resident command launcher: a one-key menu selects a shell
//! command template, an optional single-line prompt collects free text in
//! raw mode, the text is substituted into the template, and the resulting
//! command is run through a pty wrapper, either interactively or with its
//! output captured line by line.

#![verifier::loop_isolation(false)]

pub mod cmd_runner;
pub mod input;
pub mod keyboard_shortcut;
pub mod keymap;
pub mod mock_stdout;
pub mod screen;
pub mod step;
pub mod term_codes;
pub mod term_writer;
pub mod text;
pub mod utils;
