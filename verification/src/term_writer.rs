//! The single-line raw-mode editor: a character buffer and a 1-based cursor
//! column, driven one key at a time, redrawing the current terminal line
//! through a cursor-query terminal port.
//!
//! The editor keeps the cursor *column* in its own model, clamped to
//! `[1, len(text) + 1]`, so the bound holds whatever a terminal answers;
//! the terminal is still asked for the cursor *row* before each redraw,
//! since only the terminal knows where a wrapped line put the cursor.

use crate::input;
use crate::input::Input;
use crate::input::InputError;
use crate::input::Key;
use crate::term_codes;
use crate::text;
use vstd::prelude::*;
use vstd::string::StringExecFns;

verus! {

/// The longest line the editor will hold. Together with the one-past-the-end
/// cursor position this keeps the cursor column within `u16`.
pub const MAX_INPUT: usize = 65534;

/// A raw-mode terminal as the editor sees it: formatted escape sequences go
/// out through `write_term`, and the true cursor position is asked of the
/// terminal itself with `get_cursor_pos` — the terminal, not the editor, is
/// the source of truth for where a possibly wrapped line put the cursor.
/// Implementations outside this crate (a real raw-mode stdout) are not
/// checked against these contracts.
pub trait TermCursor {
    /// Everything handed to `write_term` so far — the port's model of the
    /// launcher's own output. A cursor query's protocol round-trip is not
    /// part of it. The default exists because an impl outside `verus!`
    /// (a real terminal port) cannot define a spec function at all, yet
    /// must still satisfy the trait; it models no output, so nothing true
    /// can be concluded about what such a port wrote, and every port a
    /// proof does inspect must give `written` itself, as the in-crate
    /// mock does.
    open spec fn written(&self) -> Seq<char> {
        Seq::empty()
    }

    /// Writes one escape/text sequence.
    fn write_term(&mut self, s: &str) -> (r: Result<(), InputError>)
        ensures
            r is Ok ==> final(self).written() == old(self).written() + s@,
            r matches Err(e) ==> e is IoError,
    ;

    /// Asks the terminal for the current (1,1)-based cursor position,
    /// (column, row). The query leaves the model of the launcher's own
    /// output as it is.
    fn get_cursor_pos(&mut self) -> (r: Result<(u16, u16), InputError>)
        ensures
            final(self).written() == old(self).written(),
            r matches Err(e) ==> e is IoError,
    ;
}

/// Editor well-formedness: the text fits the editor's limit and the cursor
/// column lies within `[1, len(text) + 1]`.
pub open spec fn edit_wf(t: Seq<char>, x: int) -> bool {
    &&& t.len() <= MAX_INPUT
    &&& 1 <= x <= t.len() + 1
}

/// The cursor column after a left move: one column left, stopped at 1.
pub open spec fn left_col(x: int) -> int {
    if x > 1 {
        x - 1
    } else {
        x
    }
}

/// The cursor column after a right move: one column right, stopped at
/// one past the end of the text.
pub open spec fn right_col(t: Seq<char>, x: int) -> int {
    if x <= t.len() {
        x + 1
    } else {
        x
    }
}

/// The text after a backspace: the character left of the cursor removed,
/// nothing at column 1.
pub open spec fn bs_text(t: Seq<char>, x: int) -> Seq<char> {
    if x > 1 {
        t.remove(x - 2)
    } else {
        t
    }
}

/// The cursor column after a backspace.
pub open spec fn bs_col(x: int) -> int {
    left_col(x)
}

/// The text after inserting `c` at the cursor; a full buffer ignores the key.
pub open spec fn ins_text(t: Seq<char>, x: int, c: char) -> Seq<char> {
    if t.len() < MAX_INPUT {
        t.insert(x - 1, c)
    } else {
        t
    }
}

/// The cursor column after inserting at the cursor.
pub open spec fn ins_col(t: Seq<char>, x: int) -> int {
    if t.len() < MAX_INPUT {
        x + 1
    } else {
        x
    }
}

/// The low byte a key's character truncates to, as a single-byte encoding.
pub open spec fn key_byte(c: char) -> u8 {
    ((c as u32) % 256) as u8
}

/// Whether that single byte is valid UTF-8 on its own (ASCII).
pub open spec fn single_byte_ok(c: char) -> bool {
    (c as u32) % 256 < 128
}

/// What one key appends to the terminal when its handling succeeds, with
/// the terminal reporting row `y`: nothing for a key that is ignored,
/// terminates the session, or moves at its edge; the move sequence for a
/// cursor move; a clear-and-redraw of the current line, cursor put back,
/// for an edit.
pub open spec fn step_echo(t: Seq<char>, x: int, k: Key, y: u16) -> Seq<char> {
    match k {
        Key::Char(c) => if c != '\n' && single_byte_ok(c) && t.len() < MAX_INPUT {
            term_codes::goto_seq(1, y) + term_codes::clear_line_seq() + ins_text(t, x, c)
                + term_codes::goto_seq((x + 1) as u16, y)
        } else {
            Seq::empty()
        },
        Key::Left => if x > 1 {
            term_codes::left_seq(1)
        } else {
            Seq::empty()
        },
        Key::Right => if x <= t.len() {
            term_codes::right_seq(1)
        } else {
            Seq::empty()
        },
        Key::Backspace => if x > 1 {
            term_codes::goto_seq(1, y) + term_codes::clear_line_seq() + bs_text(t, x)
                + term_codes::goto_seq((x - 1) as u16, y)
        } else {
            Seq::empty()
        },
        Key::Esc | Key::Other => Seq::empty(),
    }
}

struct Position {
    x: u16,
    y: u16,
}

/// The line editor's state: the text being edited and the cursor column.
pub struct TermWriter {
    input: Vec<char>,
    cursor_pos: Position,
}

impl TermWriter {
    /// The text being edited.
    pub closed spec fn text(&self) -> Seq<char> {
        self.input@
    }

    /// Hands the buffer's characters out, for a commit without Enter.
    pub fn into_chars(self) -> (v: Vec<char>)
        ensures
            v@ == self.text(),
    {
        self.input
    }

    /// The 1-based cursor column.
    pub closed spec fn col(&self) -> int {
        self.cursor_pos.x as int
    }

    /// The editor invariant: see [`edit_wf`].
    pub open spec fn wf(&self) -> bool {
        edit_wf(self.text(), self.col())
    }

    /// A fresh editing session over the given initial text, cursor at
    /// column 1.
    pub fn new(input: String) -> (w: TermWriter)
        requires
            input@.len() <= MAX_INPUT,
        ensures
            w.text() == input@,
            w.col() == 1,
            w.wf(),
    {
        TermWriter {
            input: text::str_to_chars(input.as_str()),
            cursor_pos: Position { x: 1, y: 1 },
        }
    }

    /// Commits the session: a blank buffer is refused with `EmptyString`,
    /// anything else yields the trimmed text.
    pub fn enter(&self) -> (r: Result<Input, InputError>)
        ensures
            text::trim_spec(self.text()).len() == 0 ==> (r matches Err(e) && e is EmptyString),
            text::trim_spec(self.text()).len() > 0 ==> (r matches Ok(i) && i matches Input::Text(s)
                && s@ == text::trim_spec(self.text())),
    {
        let trimmed = text::trim_chars(&self.input);
        if trimmed.len() == 0 {
            Err(InputError::EmptyString)
        } else {
            Ok(Input::Text(text::chars_to_string(&trimmed)))
        }
    }

    /// Moves the cursor one column left, stopping at column 1; the move is
    /// echoed to the terminal, and a move at the edge touches it not at all.
    pub fn left<T: TermCursor>(&mut self, stdout: &mut T) -> (r: Result<(), InputError>)
        requires
            old(self).wf(),
        ensures
            final(self).wf(),
            final(self).text() == old(self).text(),
            final(self).col() == left_col(old(self).col()),
            r matches Err(e) ==> e is IoError,
            r is Ok && old(self).col() > 1 ==> final(stdout).written() == old(stdout).written()
                + term_codes::left_seq(1),
            old(self).col() == 1 ==> r is Ok && final(stdout).written() == old(stdout).written(),
    {
        if self.cursor_pos.x > 1 {
            self.cursor_pos.x = self.cursor_pos.x - 1;
            let seq = term_codes::cursor_left(1);
            stdout.write_term(seq.as_str())?;
        }
        Ok(())
    }

    /// Moves the cursor one column right, stopping one past the end of the
    /// text; the move is echoed to the terminal, and a move at the edge
    /// touches it not at all.
    pub fn right<T: TermCursor>(&mut self, stdout: &mut T) -> (r: Result<(), InputError>)
        requires
            old(self).wf(),
        ensures
            final(self).wf(),
            final(self).text() == old(self).text(),
            final(self).col() == right_col(old(self).text(), old(self).col()),
            r matches Err(e) ==> e is IoError,
            r is Ok && old(self).col() <= old(self).text().len() ==> final(stdout).written()
                == old(stdout).written() + term_codes::right_seq(1),
            old(self).col() > old(self).text().len() ==> r is Ok && final(stdout).written()
                == old(stdout).written(),
    {
        if (self.cursor_pos.x as usize) <= self.input.len() {
            self.cursor_pos.x = self.cursor_pos.x + 1;
            let seq = term_codes::cursor_right(1);
            stdout.write_term(seq.as_str())?;
        }
        Ok(())
    }

    /// Deletes the character left of the cursor, then clears and redraws the
    /// current terminal line — at the row the terminal reports — and puts
    /// the cursor back; at column 1 it touches neither text nor terminal.
    pub fn backspace<T: TermCursor>(&mut self, stdout: &mut T) -> (r: Result<(), InputError>)
        requires
            old(self).wf(),
        ensures
            final(self).wf(),
            final(self).text() == bs_text(old(self).text(), old(self).col()),
            final(self).col() == bs_col(old(self).col()),
            r matches Err(e) ==> e is IoError,
            r is Ok && old(self).col() > 1 ==> (exists|y: u16|
                y >= 1 && final(stdout).written() == old(stdout).written() + term_codes::goto_seq(
                    1,
                    y,
                ) + term_codes::clear_line_seq() + final(self).text() + term_codes::goto_seq(
                    (old(self).col() - 1) as u16,
                    y,
                )),
            old(self).col() == 1 ==> r is Ok && final(stdout).written() == old(stdout).written(),
    {
        if self.cursor_pos.x > 1 {
            self.cursor_pos.x = self.cursor_pos.x - 1;
            let idx = (self.cursor_pos.x - 1) as usize;
            self.input.remove(idx);
            let pos = stdout.get_cursor_pos()?;
            let y = if pos.1 < 1 {
                1
            } else {
                pos.1
            };
            self.cursor_pos.y = y;
            let mut out = term_codes::cursor_goto(1, y);
            let cl = term_codes::clear_line();
            out.append(cl.as_str());
            let line = text::chars_to_string(&self.input);
            out.append(line.as_str());
            stdout.write_term(out.as_str())?;
            let back = term_codes::cursor_goto(self.cursor_pos.x, y);
            stdout.write_term(back.as_str())?;
            proof {
                assert(y >= 1);
                assert(stdout.written() =~= old(stdout).written() + term_codes::goto_seq(1, y)
                    + term_codes::clear_line_seq() + self.input@ + term_codes::goto_seq(
                    (old(self).col() - 1) as u16,
                    y,
                ));
            }
        }
        Ok(())
    }

    /// Handles a printable key: a character whose single-byte encoding is
    /// not valid UTF-8 ends the session with `NotUTF8`, the terminal
    /// untouched; otherwise the character is inserted at the cursor
    /// (ignored, and nothing written, if the buffer is full), the line is
    /// cleared and redrawn at the row the terminal reports, and the cursor
    /// advances.
    pub fn char<T: TermCursor>(&mut self, stdout: &mut T, c: char) -> (r: Result<(), InputError>)
        requires
            old(self).wf(),
        ensures
            final(self).wf(),
            !single_byte_ok(c) ==> ({
                &&& *final(self) == *old(self)
                &&& final(stdout).written() == old(stdout).written()
                &&& r matches Err(e)
                &&& e matches InputError::NotUTF8(bs)
                &&& bs@ == seq![key_byte(c)]
            }),
            single_byte_ok(c) ==> {
                &&& final(self).text() == ins_text(old(self).text(), old(self).col(), c)
                &&& final(self).col() == ins_col(old(self).text(), old(self).col())
                &&& (r matches Err(e) ==> e is IoError)
            },
            r is Ok && single_byte_ok(c) && old(self).text().len() < MAX_INPUT ==> (exists|y: u16|
                y >= 1 && final(stdout).written() == old(stdout).written() + term_codes::goto_seq(
                    1,
                    y,
                ) + term_codes::clear_line_seq() + final(self).text() + term_codes::goto_seq(
                    (old(self).col() + 1) as u16,
                    y,
                )),
            single_byte_ok(c) && old(self).text().len() >= MAX_INPUT ==> (r is Ok
                && final(stdout).written() == old(stdout).written()),
    {
        let cu: u32 = c as u32;
        let b: u8 = (cu % 256) as u8;
        if b >= 128 {
            let mut bytes: Vec<u8> = Vec::new();
            bytes.push(b);
            proof {
                assert(bytes@ =~= seq![key_byte(c)]);
            }
            return Err(InputError::NotUTF8(bytes));
        }
        if self.input.len() < MAX_INPUT {
            let idx = (self.cursor_pos.x - 1) as usize;
            self.input.insert(idx, c);
            self.cursor_pos.x = self.cursor_pos.x + 1;
            let pos = stdout.get_cursor_pos()?;
            let y = if pos.1 < 1 {
                1
            } else {
                pos.1
            };
            self.cursor_pos.y = y;
            let mut out = term_codes::cursor_goto(1, y);
            let cl = term_codes::clear_line();
            out.append(cl.as_str());
            let line = text::chars_to_string(&self.input);
            out.append(line.as_str());
            stdout.write_term(out.as_str())?;
            let fwd = term_codes::cursor_goto(self.cursor_pos.x, y);
            stdout.write_term(fwd.as_str())?;
            proof {
                assert(y >= 1);
                assert(stdout.written() =~= old(stdout).written() + term_codes::goto_seq(1, y)
                    + term_codes::clear_line_seq() + self.input@ + term_codes::goto_seq(
                    (old(self).col() + 1) as u16,
                    y,
                ));
            }
        }
        Ok(())
    }

    /// Feeds one key event to the session. `Ok(None)` continues the
    /// session; `Ok(Some(..))` ends it with a result; `Err(..)` ends it
    /// with an error. The transition is exactly one step of the session
    /// model.
    pub fn handle_key<T: TermCursor>(&mut self, stdout: &mut T, key: Key) -> (r: Result<
        Option<Input>,
        InputError,
    >)
        requires
            old(self).wf(),
        ensures
            final(self).wf(),
            input::key_continues(key) ==> ({
                &&& final(self).text() == input::step_text(old(self).text(), old(self).col(), key)
                &&& final(self).col() == input::step_col(old(self).text(), old(self).col(), key)
                &&& ((r matches Ok(o) && o is None) || (r matches Err(e) && e is IoError))
            }),
            key == Key::Char('\n') ==> ({
                &&& *final(self) == *old(self)
                &&& *final(stdout) == *old(stdout)
                &&& text::trim_spec(old(self).text()).len() == 0 ==> (r matches Err(e)
                    && e is EmptyString)
                &&& text::trim_spec(old(self).text()).len() > 0 ==> (r matches Ok(o) && o matches
                    Some(i) && i matches Input::Text(s) && s@ == text::trim_spec(
                    old(self).text(),
                ))
            }),
            key == Key::Esc ==> ({
                &&& *final(self) == *old(self)
                &&& *final(stdout) == *old(stdout)
                &&& r matches Ok(o) && o matches Some(i) && i is Cancel
            }),
            key == Key::Other ==> ({
                &&& *final(self) == *old(self)
                &&& *final(stdout) == *old(stdout)
                &&& r matches Ok(o) && o is None
            }),
            key matches Key::Char(c) ==> ((c != '\n' && !single_byte_ok(c)) ==> *final(self)
                == *old(self)),
            key matches Key::Char(c) ==> ((c != '\n' && !single_byte_ok(c))
                ==> final(stdout).written() == old(stdout).written()),
            key matches Key::Char(c) ==> ((c != '\n' && !single_byte_ok(c)) ==> (r matches Err(e)
                && e matches InputError::NotUTF8(bs) && bs@ == seq![key_byte(c)])),
            r is Ok ==> (exists|y: u16|
                y >= 1 && final(stdout).written() == old(stdout).written() + step_echo(
                    old(self).text(),
                    old(self).col(),
                    key,
                    y,
                )),
    {
        match key {
            Key::Char(c) => {
                if c == '\n' {
                    match self.enter() {
                        Ok(i) => {
                            proof {
                                lemma_echo_witness(
                                    old(stdout).written(),
                                    old(self).text(),
                                    old(self).col(),
                                    key,
                                );
                            }
                            Ok(Option::Some(i))
                        },
                        Err(e) => Err(e),
                    }
                } else {
                    match self.char(stdout, c) {
                        Ok(u) => {
                            proof {
                                if old(self).text().len() < MAX_INPUT {
                                    let y = choose|y: u16|
                                        y >= 1 && stdout.written() == old(stdout).written()
                                            + term_codes::goto_seq(1, y)
                                            + term_codes::clear_line_seq() + self.text()
                                            + term_codes::goto_seq(
                                            (old(self).col() + 1) as u16,
                                            y,
                                        );
                                    lemma_concat_group(
                                        old(stdout).written(),
                                        term_codes::goto_seq(1, y),
                                        term_codes::clear_line_seq(),
                                        self.text(),
                                        term_codes::goto_seq((old(self).col() + 1) as u16, y),
                                    );
                                    assert(y >= 1 && stdout.written() == old(stdout).written()
                                        + step_echo(old(self).text(), old(self).col(), key, y));
                                } else {
                                    lemma_echo_witness(
                                        old(stdout).written(),
                                        old(self).text(),
                                        old(self).col(),
                                        key,
                                    );
                                }
                            }
                            Ok(Option::None)
                        },
                        Err(e) => Err(e),
                    }
                }
            },
            Key::Esc => {
                proof {
                    lemma_echo_witness(
                        old(stdout).written(),
                        old(self).text(),
                        old(self).col(),
                        key,
                    );
                }
                Ok(Option::Some(Input::Cancel))
            },
            Key::Left => match self.left(stdout) {
                Ok(u) => {
                    proof {
                        if old(self).col() == 1 {
                            lemma_echo_witness(
                                old(stdout).written(),
                                old(self).text(),
                                old(self).col(),
                                key,
                            );
                        } else {
                            assert(1u16 >= 1 && stdout.written() == old(stdout).written()
                                + step_echo(old(self).text(), old(self).col(), key, 1u16));
                        }
                    }
                    Ok(Option::None)
                },
                Err(e) => Err(e),
            },
            Key::Right => match self.right(stdout) {
                Ok(u) => {
                    proof {
                        if old(self).col() > old(self).text().len() {
                            lemma_echo_witness(
                                old(stdout).written(),
                                old(self).text(),
                                old(self).col(),
                                key,
                            );
                        } else {
                            assert(1u16 >= 1 && stdout.written() == old(stdout).written()
                                + step_echo(old(self).text(), old(self).col(), key, 1u16));
                        }
                    }
                    Ok(Option::None)
                },
                Err(e) => Err(e),
            },
            Key::Backspace => match self.backspace(stdout) {
                Ok(u) => {
                    proof {
                        if old(self).col() == 1 {
                            lemma_echo_witness(
                                old(stdout).written(),
                                old(self).text(),
                                old(self).col(),
                                key,
                            );
                        } else {
                            let y = choose|y: u16|
                                y >= 1 && stdout.written() == old(stdout).written()
                                    + term_codes::goto_seq(1, y) + term_codes::clear_line_seq()
                                    + self.text() + term_codes::goto_seq(
                                    (old(self).col() - 1) as u16,
                                    y,
                                );
                            lemma_concat_group(
                                old(stdout).written(),
                                term_codes::goto_seq(1, y),
                                term_codes::clear_line_seq(),
                                self.text(),
                                term_codes::goto_seq((old(self).col() - 1) as u16, y),
                            );
                            assert(y >= 1 && stdout.written() == old(stdout).written() + step_echo(
                                old(self).text(),
                                old(self).col(),
                                key,
                                y,
                            ));
                        }
                    }
                    Ok(Option::None)
                },
                Err(e) => Err(e),
            },
            Key::Other => {
                proof {
                    lemma_echo_witness(
                        old(stdout).written(),
                        old(self).text(),
                        old(self).col(),
                        key,
                    );
                }
                Ok(Option::None)
            },
        }
    }
}

/// Grouping a written chain: appending four pieces one after another is
/// appending their concatenation.
proof fn lemma_concat_group(w: Seq<char>, a: Seq<char>, b: Seq<char>, c: Seq<char>, d: Seq<char>)
    ensures
        w + a + b + c + d == w + (a + b + c + d),
{
    assert(w + a + b + c + d =~= w + (a + b + c + d));
}

/// A key whose echo is empty leaves the written stream where it was.
proof fn lemma_echo_witness(w: Seq<char>, t: Seq<char>, x: int, k: Key)
    requires
        step_echo(t, x, k, 1) == Seq::<char>::empty(),
    ensures
        w + step_echo(t, x, k, 1) == w,
{
    assert(w + Seq::<char>::empty() =~= w);
}

} // verus!
