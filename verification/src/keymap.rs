//! A menu entry: the trigger key, a description shown in the menu, the
//! shell command template, and the optional prompt that collects the text
//! substituted into the template.

use vstd::prelude::*;
use vstd::string::StringExecFns;

verus! {

/// One entry of the launcher's key-to-command table.
#[derive(Debug, Clone)]
pub struct Keymap {
    pub key: char,
    pub cmd: String,
    pub description: String,
    pub prompt: Option<String>,
}

impl Keymap {
    /// A new entry; the description defaults to the command itself, and no
    /// prompt is asked.
    pub fn new(key: char, cmd: &str) -> (k: Keymap)
        ensures
            k.key == key,
            k.cmd@ == cmd@,
            k.description@ == cmd@,
            k.prompt is None,
    {
        let cmd_owned = String::from_str(cmd);
        let description = cmd_owned.clone();
        Keymap { key, cmd: cmd_owned, description, prompt: Option::None }
    }

    /// The same entry, now asking the given prompt before running.
    pub fn with_prompt(self, prompt: &str) -> (k: Keymap)
        ensures
            k.key == self.key,
            k.cmd == self.cmd,
            k.description == self.description,
            k.prompt matches Some(p) && p@ == prompt@,
    {
        Keymap { prompt: Option::Some(String::from_str(prompt)), ..self }
    }

    /// The same entry with its menu description replaced.
    pub fn with_description(self, description: &str) -> (k: Keymap)
        ensures
            k.key == self.key,
            k.cmd == self.cmd,
            k.description@ == description@,
            k.prompt == self.prompt,
    {
        Keymap { description: String::from_str(description), ..self }
    }
}

} // verus!
