//! A terminal double for tests: it keeps everything written to it in a
//! buffer, and answers cursor queries from a simple counter that advances
//! whenever a line redraw (a clear-line sequence) is written.

use crate::input::InputError;
use crate::term_writer::TermCursor;
use crate::text;
use vstd::prelude::*;
use vstd::string::StringExecFns;

verus! {

/// An in-memory terminal port.
#[derive(Debug)]
pub struct MockStdout {
    /// Everything written so far.
    pub buffer: String,
    cursor_pos: (u16, u16),
}

impl MockStdout {
    /// A fresh port: empty buffer, cursor at the (1,1) origin.
    pub fn new() -> (m: MockStdout)
        ensures
            m.written() == Seq::<char>::empty(),
    {
        MockStdout { buffer: String::new(), cursor_pos: (1, 1) }
    }
}

impl TermCursor for MockStdout {
    closed spec fn written(&self) -> Seq<char> {
        self.buffer@
    }

    fn write_term(&mut self, s: &str) -> (r: Result<(), InputError>) {
        let chars = text::str_to_chars(s);
        let marker: Vec<char> = vec!['\u{1b}', '[', '2', 'K'];
        if text::find_sub(&chars, &marker) {
            if self.cursor_pos.0 < u16::MAX {
                self.cursor_pos.0 = self.cursor_pos.0 + 1;
            }
        }
        self.buffer.append(s);
        Ok(())
    }

    fn get_cursor_pos(&mut self) -> (r: Result<(u16, u16), InputError>) {
        Ok(self.cursor_pos)
    }
}

} // verus!
