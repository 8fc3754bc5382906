//! The orchestration step: shows the menu, collects prompt input through
//! the line editor, and decides what to run — the substituted, classified
//! command, or nothing at all. Spawning the decided command is the caller's
//! job; the decision itself is stated exactly.

use crate::cmd_runner;
use crate::cmd_runner::CmdType;
use crate::input;
use crate::input::Input;
use crate::input::InputError;
use crate::input::Key;
use crate::keymap::Keymap;
use crate::screen;
use crate::screen::Screen;
use crate::term_codes;
use crate::term_writer::TermCursor;
use crate::text;
use crate::utils;
use vstd::prelude::*;
use vstd::string::StringExecFns;

verus! {

/// What the orchestration step decided: run a command, with its class, or
/// end the selection without running anything.
#[derive(Debug, PartialEq)]
pub enum Process {
    Run(String, CmdType),
    Exit,
}

/// The menu line for one entry: its key, two spaces, its description.
pub open spec fn menu_item_spec(k: Keymap) -> Seq<char> {
    seq![k.key] + "  "@ + k.description@
}

/// The menu lines for a whole table.
pub open spec fn menu_items_spec(ks: Seq<Keymap>) -> Seq<Seq<char>> {
    ks.map_values(|k: Keymap| menu_item_spec(k))
}

/// One command selection in progress.
pub struct Step<T: TermCursor> {
    pub screen: Screen<T>,
}

impl<T: TermCursor> Step<T> {
    /// Wraps a screen.
    pub fn new(screen: Screen<T>) -> (s: Step<T>)
        ensures
            s.screen == screen,
    {
        Step { screen }
    }

    /// Clears the screen and shows the selection prompt and the menu.
    pub fn show_select_cmd(&mut self, keymaps: &Vec<Keymap>) -> (r: Result<(), InputError>)
        ensures
            r is Ok ==> final(self).screen.stdout.written() == old(self).screen.stdout.written()
                + term_codes::clear_all_seq() + term_codes::goto_seq(1, 1)
                + term_codes::hide_seq() + "Please select a command:"@ + "\r\n"@
                + screen::menu_lines(menu_items_spec(keymaps@)),
            r matches Err(e) ==> e is IoError,
    {
        match self.screen.clear_all() {
            Ok(u) => u,
            Err(e) => {
                return Err(e);
            },
        }
        match self.screen.show_prompt("Please select a command:") {
            Ok(u) => u,
            Err(e) => {
                return Err(e);
            },
        }
        let mut items: Vec<String> = Vec::new();
        let mut i: usize = 0;
        while i < keymaps.len()
            invariant
                i <= keymaps@.len(),
                items@.len() == i,
                forall|m: int|
                    0 <= m < i ==> items.deep_view()[m] == menu_item_spec(#[trigger] keymaps@[m]),
            decreases keymaps@.len() - i,
        {
            let k = &keymaps[i];
            let mut line = text::char_to_string(k.key);
            line.append("  ");
            line.append(k.description.as_str());
            items.push(line);
            i += 1;
        }
        proof {
            assert(items.deep_view() =~= menu_items_spec(keymaps@));
        }
        match self.screen.show_menu(&items) {
            Ok(u) => u,
            Err(e) => {
                return Err(e);
            },
        }
        Ok(())
    }

    /// Collects input for the selected entry: with a prompt, shows it on a
    /// line of its own, makes the cursor visible, and runs an editing
    /// session over the key events; without one, asks for nothing and
    /// touches nothing.
    pub fn input_from_prompt(&mut self, prompt: Option<&str>, keys: Vec<Key>) -> (r: Result<
        Input,
        InputError,
    >)
        ensures
            prompt is None ==> (r matches Ok(i) && i is NoInput),
            prompt is None ==> *final(self) == *old(self),
            prompt is Some ==> (input::result_matches(
                r,
                input::session_from(Seq::<char>::empty(), 1, keys@),
            ) || (r matches Err(e) && e is IoError)),
            prompt matches Some(p) ==> ((r matches Err(e) && e is IoError) || (exists|
                rest: Seq<char>,
            |
                final(self).screen.stdout.written() == old(self).screen.stdout.written() + p@
                    + "\r\n"@ + term_codes::show_seq() + rest)),
    {
        match prompt {
            Option::Some(p) => {
                match self.screen.show_prompt(p) {
                    Ok(u) => u,
                    Err(e) => {
                        return Err(e);
                    },
                }
                match self.screen.show_cursor() {
                    Ok(u) => u,
                    Err(e) => {
                        return Err(e);
                    },
                }
                let ghost shown = self.screen.stdout.written();
                let r = input::input_from_keys(keys, &mut self.screen.stdout);
                proof {
                    if !(r matches Err(ref e) && e is IoError) {
                        let w = choose|w: Seq<char>|
                            self.screen.stdout.written() == shown + w;
                        assert(self.screen.stdout.written() == old(
                            self,
                        ).screen.stdout.written() + p@ + "\r\n"@ + term_codes::show_seq() + w);
                    }
                }
                r
            },
            Option::None => Ok(Input::NoInput),
        }
    }

    /// Decides what the editing result means for the selected entry:
    /// committed text is escaped and substituted for `{}` in the template
    /// and the result classified; no input runs the template unmodified,
    /// classified the same way; a cancel runs nothing, a newline written on
    /// a best-effort basis; an error is reported on the screen
    /// (best-effort) and handed back unchanged.
    pub fn process_input(self, result: Result<Input, InputError>, keymap: &Keymap) -> (r: Result<
        Process,
        InputError,
    >)
        ensures
            result matches Ok(Input::Text(s)) ==> ({
                ||| ({
                    &&& r matches Ok(p)
                    &&& p matches Process::Run(cmd, ty)
                    &&& cmd@ == text::replace_spec(keymap.cmd@, "{}"@, utils::escape_spec(s@))
                    &&& ty == cmd_runner::classify_spec(cmd@)
                })
                ||| (r matches Err(e) && e is IoError)
            }),
            result matches Ok(Input::NoInput) ==> ({
                ||| ({
                    &&& r matches Ok(p)
                    &&& p matches Process::Run(cmd, ty)
                    &&& cmd@ == keymap.cmd@
                    &&& ty == cmd_runner::classify_spec(keymap.cmd@)
                })
                ||| (r matches Err(e) && e is IoError)
            }),
            result matches Ok(Input::Cancel) ==> (r matches Ok(p) && p is Exit),
            result matches Err(e) ==> (r matches Err(e2) && e2 == e),
    {
        let mut this = self;
        match result {
            Ok(Input::Text(text_in)) => {
                match this.screen.add_newline() {
                    Ok(u) => u,
                    Err(e) => {
                        return Err(e);
                    },
                }
                match this.screen.show_cursor() {
                    Ok(u) => u,
                    Err(e) => {
                        return Err(e);
                    },
                }
                let escaped = utils::escape_backticks(text_in.as_str());
                let cmd = text::replace_str(keymap.cmd.as_str(), "{}", escaped.as_str());
                let ty = match CmdType::from_str(cmd.as_str()) {
                    Ok(t) => t,
                    Err(()) => CmdType::Script,
                };
                Ok(Process::Run(cmd, ty))
            },
            Ok(Input::NoInput) => {
                match this.screen.show_cursor() {
                    Ok(u) => u,
                    Err(e) => {
                        return Err(e);
                    },
                }
                let cmd = keymap.cmd.clone();
                let ty = match CmdType::from_str(cmd.as_str()) {
                    Ok(t) => t,
                    Err(()) => CmdType::Script,
                };
                Ok(Process::Run(cmd, ty))
            },
            Ok(Input::Cancel) => {
                let nl = this.screen.add_newline();
                match nl {
                    Ok(u) => u,
                    Err(e) => {},
                }
                Ok(Process::Exit)
            },
            Err(e) => {
                let msg = e.message();
                let mut line = String::from_str("Invalid input: ");
                line.append(msg.as_str());
                line.append("\r\n");
                let w = this.screen.stdout.write_term(line.as_str());
                match w {
                    Ok(u) => u,
                    Err(e2) => {},
                }
                Err(e)
            },
        }
    }
}

} // verus!
