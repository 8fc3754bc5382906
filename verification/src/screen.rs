//! The launcher's own writes to the terminal: clearing, prompts and the
//! menu, stated exactly over what goes out through the terminal port.

use crate::input::InputError;
use crate::term_codes;
use crate::term_writer::TermCursor;
use vstd::prelude::*;
use vstd::string::StringExecFns;

verus! {

/// The text of a rendered menu: each item followed by CR LF.
pub open spec fn menu_lines(items: Seq<Seq<char>>) -> Seq<char>
    decreases items.len(),
{
    if items.len() == 0 {
        Seq::empty()
    } else {
        items[0] + "\r\n"@ + menu_lines(items.drop_first())
    }
}

/// A terminal port together with the launcher's drawing operations.
pub struct Screen<T: TermCursor> {
    pub stdout: T,
}

impl<T: TermCursor> Screen<T> {
    /// Wraps a terminal port.
    pub fn new(stdout: T) -> (s: Screen<T>)
        ensures
            s.stdout == stdout,
    {
        Screen { stdout }
    }

    /// Starts a new terminal line.
    pub fn add_newline(&mut self) -> (r: Result<(), InputError>)
        ensures
            r is Ok ==> final(self).stdout.written() == old(self).stdout.written() + "\r\n"@,
            r matches Err(e) ==> e is IoError,
    {
        self.stdout.write_term("\r\n")
    }

    /// Makes the cursor visible again.
    pub fn show_cursor(&mut self) -> (r: Result<(), InputError>)
        ensures
            r is Ok ==> final(self).stdout.written() == old(self).stdout.written()
                + term_codes::show_seq(),
            r matches Err(e) ==> e is IoError,
    {
        let s = term_codes::cursor_show();
        self.stdout.write_term(s.as_str())
    }

    /// Shows a one-line message on a line of its own.
    pub fn show_prompt(&mut self, message: &str) -> (r: Result<(), InputError>)
        ensures
            r is Ok ==> final(self).stdout.written() == old(self).stdout.written() + message@
                + "\r\n"@,
            r matches Err(e) ==> e is IoError,
    {
        let mut line = String::from_str(message);
        line.append("\r\n");
        let r = self.stdout.write_term(line.as_str());
        proof {
            assert(old(self).stdout.written() + (message@ + "\r\n"@) =~= old(
                self,
            ).stdout.written() + message@ + "\r\n"@);
        }
        r
    }

    /// Shows the menu, each item on a line of its own.
    pub fn show_menu(&mut self, items: &Vec<String>) -> (r: Result<(), InputError>)
        ensures
            r is Ok ==> final(self).stdout.written() == old(self).stdout.written() + menu_lines(
                items.deep_view(),
            ),
            r matches Err(e) ==> e is IoError,
    {
        let ghost w0 = self.stdout.written();
        let ghost dv = items.deep_view();
        proof {
            assert(dv.skip(0) =~= dv);
        }
        let mut i: usize = 0;
        while i < items.len()
            invariant
                i <= items@.len(),
                self.stdout.written() + menu_lines(dv.skip(i as int)) == w0 + menu_lines(dv),
            decreases items@.len() - i,
        {
            proof {
                assert(dv.skip(i as int)[0] == dv[i as int]);
                assert(dv.skip(i as int).drop_first() =~= dv.skip(i + 1));
            }
            let mut line = items[i].clone();
            line.append("\r\n");
            let ghost pre = self.stdout.written();
            match self.stdout.write_term(line.as_str()) {
                Ok(u) => u,
                Err(e) => {
                    return Err(e);
                },
            }
            proof {
                assert(self.stdout.written() =~= pre + (dv[i as int] + "\r\n"@));
                assert((pre + (dv[i as int] + "\r\n"@)) + menu_lines(dv.skip(i + 1)) =~= pre + ((
                dv[i as int] + "\r\n"@) + menu_lines(dv.skip(i + 1))));
            }
            i += 1;
        }
        proof {
            assert(dv.skip(items@.len() as int) =~= Seq::<Seq<char>>::empty());
            assert(self.stdout.written() + Seq::<char>::empty() =~= self.stdout.written());
        }
        Ok(())
    }

    /// Clears the whole screen, homes the cursor, and hides it.
    pub fn clear_all(&mut self) -> (r: Result<(), InputError>)
        ensures
            r is Ok ==> final(self).stdout.written() == old(self).stdout.written()
                + term_codes::clear_all_seq() + term_codes::goto_seq(1, 1)
                + term_codes::hide_seq(),
            r matches Err(e) ==> e is IoError,
    {
        let mut out = term_codes::clear_all();
        let g = term_codes::cursor_goto(1, 1);
        out.append(g.as_str());
        let h = term_codes::cursor_hide();
        out.append(h.as_str());
        let r = self.stdout.write_term(out.as_str());
        proof {
            assert(old(self).stdout.written() + ((term_codes::clear_all_seq()
                + term_codes::goto_seq(1, 1)) + term_codes::hide_seq()) =~= old(
                self,
            ).stdout.written() + term_codes::clear_all_seq() + term_codes::goto_seq(1, 1)
                + term_codes::hide_seq());
        }
        r
    }
}

} // verus!
