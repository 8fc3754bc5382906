//! A statically declared shortcut: a trigger key, a description, a command
//! template, and the placeholder token its prompt input is substituted for.

use crate::text;
use crate::utils;
use vstd::prelude::*;

verus! {

/// One statically declared shortcut entry.
#[derive(Debug, Clone, Copy)]
pub struct KeyboardShortcut {
    pub key: char,
    pub description: &'static str,
    pub command: &'static str,
    pub input_placeholder: &'static str,
}

impl KeyboardShortcut {
    /// The command this shortcut runs for the given prompt input: the
    /// input, backticks escaped, substituted for every occurrence of the
    /// placeholder in the template.
    pub fn command_line(&self, input: &str) -> (r: String)
        ensures
            r@ == text::replace_spec(
                self.command@,
                self.input_placeholder@,
                utils::escape_spec(input@),
            ),
    {
        let escaped = utils::escape_backticks(input);
        text::replace_str(self.command, self.input_placeholder, escaped.as_str())
    }
}

} // verus!
