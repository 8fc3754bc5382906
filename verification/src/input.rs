//! Key events, editing-session results, and the session model: what a
//! sequence of key events makes of the line editor, stated once as a spec
//! and proved of the editing loop.

use crate::term_writer;
use crate::term_writer::TermCursor;
use crate::term_writer::TermWriter;
use crate::text;
use vstd::prelude::*;
use vstd::string::StringExecFns;

verus! {

/// A key event handed to the line editor. Enter arrives as `Char('\n')`;
/// every key the editor does not react to is `Other`.
#[derive(Clone, Copy, Debug, PartialEq, Eq)]
pub enum Key {
    Char(char),
    Left,
    Right,
    Backspace,
    Esc,
    Other,
}

/// The result of an editing session: committed text, no editing requested,
/// or a user abort.
#[derive(Debug, PartialEq)]
pub enum Input {
    Text(String),
    NoInput,
    Cancel,
}

/// Why an editing session failed: a key whose single-byte encoding is not
/// valid UTF-8, a commit of a blank buffer, or a terminal I/O failure.
#[derive(Debug)]
pub enum InputError {
    NotUTF8(Vec<u8>),
    EmptyString,
    IoError(String),
}

/// The uppercase hexadecimal digit character for `n < 16`.
pub open spec fn hex_digit(n: u8) -> char
    recommends
        n < 16,
{
    if n == 0 {
        '0'
    } else if n == 1 {
        '1'
    } else if n == 2 {
        '2'
    } else if n == 3 {
        '3'
    } else if n == 4 {
        '4'
    } else if n == 5 {
        '5'
    } else if n == 6 {
        '6'
    } else if n == 7 {
        '7'
    } else if n == 8 {
        '8'
    } else if n == 9 {
        '9'
    } else if n == 10 {
        'A'
    } else if n == 11 {
        'B'
    } else if n == 12 {
        'C'
    } else if n == 13 {
        'D'
    } else if n == 14 {
        'E'
    } else {
        'F'
    }
}

/// One byte rendered as ` 0xHH`.
pub open spec fn hex_byte(b: u8) -> Seq<char> {
    " 0x"@ + seq![hex_digit(b / 16), hex_digit(b % 16)]
}

/// A list of bytes rendered as ` 0xHH` groups.
pub open spec fn hex_list(bs: Seq<u8>) -> Seq<char>
    decreases bs.len(),
{
    if bs.len() == 0 {
        Seq::empty()
    } else {
        hex_byte(bs[0]) + hex_list(bs.drop_first())
    }
}

/// The one-line description of each error.
pub open spec fn error_message(e: InputError) -> Seq<char> {
    match e {
        InputError::NotUTF8(bs) => "Input contained non-UTF8 bytes:"@ + hex_list(bs@),
        InputError::EmptyString => "Input was empty"@,
        InputError::IoError(m) => "I/O Error: "@ + m@,
    }
}

/// The uppercase hexadecimal digit character for `n < 16`.
pub fn hex_digit_char(n: u8) -> (c: char)
    requires
        n < 16,
    ensures
        c == hex_digit(n),
{
    if n == 0 {
        '0'
    } else if n == 1 {
        '1'
    } else if n == 2 {
        '2'
    } else if n == 3 {
        '3'
    } else if n == 4 {
        '4'
    } else if n == 5 {
        '5'
    } else if n == 6 {
        '6'
    } else if n == 7 {
        '7'
    } else if n == 8 {
        '8'
    } else if n == 9 {
        '9'
    } else if n == 10 {
        'A'
    } else if n == 11 {
        'B'
    } else if n == 12 {
        'C'
    } else if n == 13 {
        'D'
    } else if n == 14 {
        'E'
    } else {
        'F'
    }
}

impl InputError {
    /// The one-line description of this error, as shown to the user.
    pub fn message(&self) -> (r: String)
        ensures
            r@ == error_message(*self),
    {
        match self {
            InputError::NotUTF8(bs) => {
                let mut s = String::from_str("Input contained non-UTF8 bytes:");
                let ghost head = s@;
                let mut i: usize = 0;
                proof {
                    assert(bs@.skip(0) =~= bs@);
                }
                while i < bs.len()
                    invariant
                        i <= bs@.len(),
                        s@ + hex_list(bs@.skip(i as int)) == head + hex_list(bs@),
                    decreases bs@.len() - i,
                {
                    let ghost pre = s@;
                    let b = bs[i];
                    s.append(" 0x");
                    s.push(hex_digit_char(b / 16));
                    s.push(hex_digit_char(b % 16));
                    proof {
                        assert(bs@.skip(i as int)[0] == bs@[i as int]);
                        assert(bs@.skip(i as int).drop_first() =~= bs@.skip(i + 1));
                        assert(s@ =~= pre + hex_byte(b));
                        assert((pre + hex_byte(b)) + hex_list(bs@.skip(i + 1)) =~= pre + (hex_byte(
                            b,
                        ) + hex_list(bs@.skip(i + 1))));
                    }
                    i += 1;
                }
                proof {
                    assert(bs@.skip(bs@.len() as int) =~= Seq::<u8>::empty());
                    assert(s@ + Seq::<char>::empty() =~= s@);
                }
                s
            },
            InputError::EmptyString => String::from_str("Input was empty"),
            InputError::IoError(m) => {
                let mut s = String::from_str("I/O Error: ");
                s.append(m.as_str());
                s
            },
        }
    }
}

/// What an editing session ends in, at the level of the model: committed
/// text, a user abort, a refused blank commit, or a key whose single-byte
/// encoding was not valid UTF-8.
pub enum SessionOutcome {
    Committed(Seq<char>),
    Cancelled,
    EmptyCommit,
    BadByte(u8),
}

/// Whether a key lets the session continue: neither commits, cancels,
/// nor fails.
pub open spec fn key_continues(k: Key) -> bool {
    match k {
        Key::Char(c) => c != '\n' && term_writer::single_byte_ok(c),
        Key::Esc => false,
        Key::Left | Key::Right | Key::Backspace | Key::Other => true,
    }
}

/// The text after one editing step on a continuing key.
pub open spec fn step_text(t: Seq<char>, x: int, k: Key) -> Seq<char> {
    match k {
        Key::Char(c) => if c != '\n' && term_writer::single_byte_ok(c) {
            term_writer::ins_text(t, x, c)
        } else {
            t
        },
        Key::Backspace => term_writer::bs_text(t, x),
        Key::Left | Key::Right | Key::Esc | Key::Other => t,
    }
}

/// The cursor column after one editing step on a continuing key.
pub open spec fn step_col(t: Seq<char>, x: int, k: Key) -> int {
    match k {
        Key::Char(c) => if c != '\n' && term_writer::single_byte_ok(c) {
            term_writer::ins_col(t, x)
        } else {
            x
        },
        Key::Left => term_writer::left_col(x),
        Key::Right => term_writer::right_col(t, x),
        Key::Backspace => term_writer::bs_col(x),
        Key::Esc | Key::Other => x,
    }
}

/// The editor state after a whole sequence of steps.
pub open spec fn run_keys(t: Seq<char>, x: int, ks: Seq<Key>) -> (Seq<char>, int)
    decreases ks.len(),
{
    if ks.len() == 0 {
        (t, x)
    } else {
        run_keys(step_text(t, x, ks[0]), step_col(t, x, ks[0]), ks.drop_first())
    }
}

/// The outcome of feeding the keys, in order, to an editor holding text
/// `t` with its cursor at column `x`. A run that exhausts its keys commits
/// the trimmed text as it stands.
pub open spec fn session_from(t: Seq<char>, x: int, keys: Seq<Key>) -> SessionOutcome
    decreases keys.len(),
{
    if keys.len() == 0 {
        SessionOutcome::Committed(text::trim_spec(t))
    } else {
        let rest = keys.drop_first();
        match keys[0] {
            Key::Char(c) => {
                if c == '\n' {
                    if text::trim_spec(t).len() == 0 {
                        SessionOutcome::EmptyCommit
                    } else {
                        SessionOutcome::Committed(text::trim_spec(t))
                    }
                } else if !term_writer::single_byte_ok(c) {
                    SessionOutcome::BadByte(term_writer::key_byte(c))
                } else {
                    session_from(
                        term_writer::ins_text(t, x, c),
                        term_writer::ins_col(t, x),
                        rest,
                    )
                }
            },
            Key::Esc => SessionOutcome::Cancelled,
            Key::Left => session_from(t, term_writer::left_col(x), rest),
            Key::Right => session_from(t, term_writer::right_col(t, x), rest),
            Key::Backspace => session_from(
                term_writer::bs_text(t, x),
                term_writer::bs_col(x),
                rest,
            ),
            Key::Other => session_from(t, x, rest),
        }
    }
}

/// How an editing-session result corresponds to a modelled outcome.
pub open spec fn result_matches(r: Result<Input, InputError>, out: SessionOutcome) -> bool {
    match out {
        SessionOutcome::Committed(t) => r matches Ok(i) && i matches Input::Text(s) && s@ == t,
        SessionOutcome::Cancelled => r matches Ok(i) && i is Cancel,
        SessionOutcome::EmptyCommit => r matches Err(e) && e is EmptyString,
        SessionOutcome::BadByte(b) => r matches Err(e) && e matches InputError::NotUTF8(bs) && bs@
            == seq![b],
    }
}

/// Whether every key before position `i` is an ignored key, one the
/// editor reacts to with nothing at all.
pub open spec fn ignored_prefix(keys: Seq<Key>, i: int) -> bool {
    forall|j: int| 0 <= j < i ==> #[trigger] keys[j] == Key::Other
}

/// Runs one editing session over the given key events: exactly the outcome
/// the session model gives, unless the terminal itself failed. A session
/// that is decided before its first terminal write — no keys at all, or an
/// Escape or Enter preceded only by ignored keys — cannot fail with
/// `IoError`. Unless the terminal failed, the session only ever appends to
/// the written stream; what each key appends is stated on
/// [`TermWriter::handle_key`] — an ignored key appends nothing.
pub fn input_from_keys<T: TermCursor>(keys: Vec<Key>, stdout: &mut T) -> (r: Result<
    Input,
    InputError,
>)
    ensures
        result_matches(r, session_from(Seq::<char>::empty(), 1, keys@)) || (r matches Err(e)
            && e is IoError),
        keys@.len() == 0 ==> (r matches Ok(i) && i matches Input::Text(s) && s@ == Seq::<
            char,
        >::empty()),
        (exists|i0: int|
            0 <= i0 < keys@.len() && keys@[i0] == Key::Esc && #[trigger] ignored_prefix(
                keys@,
                i0,
            )) ==> (r matches Ok(i) && i is Cancel),
        (exists|i0: int|
            0 <= i0 < keys@.len() && keys@[i0] == Key::Char('\n') && #[trigger] ignored_prefix(
                keys@,
                i0,
            )) ==> (r matches Err(e) && e is EmptyString),
        !(r matches Err(e) && e is IoError) ==> (exists|w: Seq<char>|
            final(stdout).written() == old(stdout).written() + w),
{
    let mut tw = TermWriter::new(String::new());
    proof {
        assert(keys@.skip(0) =~= keys@);
        assert(old(stdout).written() + Seq::<char>::empty() =~= old(stdout).written());
        assert(stdout.written() == old(stdout).written() + Seq::<char>::empty());
    }
    let n = keys.len();
    let mut i: usize = 0;
    while i < n
        invariant
            i <= n,
            tw.wf(),
            forall|j: int| 0 <= j < i ==> key_continues(#[trigger] keys@[j]),
            session_from(Seq::<char>::empty(), 1, keys@) == session_from(
                tw.text(),
                tw.col(),
                keys@.skip(i as int),
            ),
            forall|i0: int|
                (0 <= i0 < keys@.len() && (keys@[i0] == Key::Esc || keys@[i0] == Key::Char('\n'))
                    && #[trigger] ignored_prefix(keys@, i0)) ==> i <= i0,
            ignored_prefix(keys@, i as int) ==> tw.text() == Seq::<char>::empty(),
            exists|w: Seq<char>| stdout.written() == old(stdout).written() + w,
        decreases n - i,
    {
        proof {
            assert(keys@.skip(i as int)[0] == keys@[i as int]);
            assert(keys@.skip(i as int).drop_first() =~= keys@.skip(i + 1));
        }
        let ghost w_pre = stdout.written();
        let ghost t_pre = tw.text();
        let ghost x_pre = tw.col();
        let k = keys[i];
        match tw.handle_key(stdout, k) {
            Ok(Option::None) => {
                proof {
                    let w0 = choose|w: Seq<char>| w_pre == old(stdout).written() + w;
                    let y = choose|y: u16|
                        y >= 1 && stdout.written() == w_pre + term_writer::step_echo(
                            t_pre,
                            x_pre,
                            k,
                            y,
                        );
                    assert((old(stdout).written() + w0) + term_writer::step_echo(t_pre, x_pre, k, y)
                        =~= old(stdout).written() + (w0 + term_writer::step_echo(
                        t_pre,
                        x_pre,
                        k,
                        y,
                    )));
                    assert(stdout.written() == old(stdout).written() + (w0
                        + term_writer::step_echo(t_pre, x_pre, k, y)));
                    if ignored_prefix(keys@, i + 1) {
                        assert(keys@[i as int] == Key::Other);
                        assert(ignored_prefix(keys@, i as int));
                    }
                    assert forall|i0: int|
                        (0 <= i0 < keys@.len() && (keys@[i0] == Key::Esc || keys@[i0] == Key::Char(
                            '\n',
                        )) && #[trigger] ignored_prefix(keys@, i0)) implies i + 1 <= i0 by {
                        if i0 == i as int {
                            assert(false);
                        }
                    }
                }
            },
            Ok(Option::Some(inp)) => {
                proof {
                    let w0 = choose|w: Seq<char>| w_pre == old(stdout).written() + w;
                    let y = choose|y: u16|
                        y >= 1 && stdout.written() == w_pre + term_writer::step_echo(
                            t_pre,
                            x_pre,
                            k,
                            y,
                        );
                    assert((old(stdout).written() + w0) + term_writer::step_echo(t_pre, x_pre, k, y)
                        =~= old(stdout).written() + (w0 + term_writer::step_echo(
                        t_pre,
                        x_pre,
                        k,
                        y,
                    )));
                    assert(stdout.written() == old(stdout).written() + (w0
                        + term_writer::step_echo(t_pre, x_pre, k, y)));
                    if exists|i0: int|
                        0 <= i0 < keys@.len() && keys@[i0] == Key::Char('\n')
                            && #[trigger] ignored_prefix(keys@, i0) {
                        let i0 = choose|i0: int|
                            0 <= i0 < keys@.len() && keys@[i0] == Key::Char('\n')
                                && #[trigger] ignored_prefix(keys@, i0);
                        if (i as int) < i0 {
                            assert(keys@[i as int] == Key::Other);
                        } else {
                            assert(ignored_prefix(keys@, i as int));
                        }
                    }
                    if exists|i0: int|
                        0 <= i0 < keys@.len() && keys@[i0] == Key::Esc && #[trigger] ignored_prefix(
                            keys@,
                            i0,
                        ) {
                        let i0 = choose|i0: int|
                            0 <= i0 < keys@.len() && keys@[i0] == Key::Esc
                                && #[trigger] ignored_prefix(keys@, i0);
                        if (i as int) < i0 {
                            assert(keys@[i as int] == Key::Other);
                        }
                    }
                }
                return Ok(inp);
            },
            Err(e) => {
                proof {
                    if exists|i0: int|
                        0 <= i0 < keys@.len() && keys@[i0] == Key::Char('\n')
                            && #[trigger] ignored_prefix(keys@, i0) {
                        let i0 = choose|i0: int|
                            0 <= i0 < keys@.len() && keys@[i0] == Key::Char('\n')
                                && #[trigger] ignored_prefix(keys@, i0);
                        if (i as int) < i0 {
                            assert(keys@[i as int] == Key::Other);
                        } else {
                            assert(ignored_prefix(keys@, i as int));
                        }
                    }
                    if exists|i0: int|
                        0 <= i0 < keys@.len() && keys@[i0] == Key::Esc && #[trigger] ignored_prefix(
                            keys@,
                            i0,
                        ) {
                        let i0 = choose|i0: int|
                            0 <= i0 < keys@.len() && keys@[i0] == Key::Esc
                                && #[trigger] ignored_prefix(keys@, i0);
                        if (i as int) < i0 {
                            assert(keys@[i as int] == Key::Other);
                        }
                    }
                    if !(e is IoError) {
                        assert(stdout.written() == w_pre);
                        let w0 = choose|w: Seq<char>| w_pre == old(stdout).written() + w;
                        assert(stdout.written() == old(stdout).written() + w0);
                    }
                }
                return Err(e);
            },
        }
        i += 1;
    }
    proof {
        assert(keys@.skip(n as int) =~= Seq::<Key>::empty());
    }
    let chars = tw.into_chars();
    let trimmed = text::trim_chars(&chars);
    Ok(Input::Text(text::chars_to_string(&trimmed)))
}

/// Law: one editing step on a well-formed buffer state keeps the cursor
/// column within `[1, len(text) + 1]`.
pub proof fn lemma_cursor_bounds(t: Seq<char>, x: int, k: Key)
    requires
        term_writer::edit_wf(t, x),
    ensures
        term_writer::edit_wf(step_text(t, x, k), step_col(t, x, k)),
{
}

/// Law: every sequence of Left/Right/Backspace/Char steps keeps a
/// well-formed buffer state well formed — the cursor column never leaves
/// `[1, len(text) + 1]`.
pub proof fn lemma_cursor_bounds_steps(t: Seq<char>, x: int, ks: Seq<Key>)
    requires
        term_writer::edit_wf(t, x),
    ensures
        term_writer::edit_wf(run_keys(t, x, ks).0, run_keys(t, x, ks).1),
    decreases ks.len(),
{
    if ks.len() > 0 {
        lemma_cursor_bounds(t, x, ks[0]);
        lemma_cursor_bounds_steps(step_text(t, x, ks[0]), step_col(t, x, ks[0]), ks.drop_first());
    }
}

/// Law: inserting a character at the cursor and backspacing right after
/// restores both the text and the cursor column.
pub proof fn lemma_insert_then_backspace(t: Seq<char>, x: int, c: char)
    requires
        term_writer::edit_wf(t, x),
        t.len() < term_writer::MAX_INPUT,
        term_writer::single_byte_ok(c),
        c != '\n',
    ensures
        step_text(step_text(t, x, Key::Char(c)), step_col(t, x, Key::Char(c)), Key::Backspace)
            == t,
        step_col(step_text(t, x, Key::Char(c)), step_col(t, x, Key::Char(c)), Key::Backspace) == x,
{
    assert(t.insert(x - 1, c).remove(x - 1) =~= t);
}

/// Law: when the first key is Enter, the session commits the trimmed
/// buffer — `EmptyString` when the trimmed text is empty, the trimmed text
/// itself otherwise.
pub proof fn lemma_commit_emptiness(t: Seq<char>, x: int, keys: Seq<Key>)
    requires
        keys.len() > 0,
        keys[0] == Key::Char('\n'),
    ensures
        text::trim_spec(t).len() == 0 ==> session_from(t, x, keys)
            == SessionOutcome::EmptyCommit,
        text::trim_spec(t).len() > 0 ==> session_from(t, x, keys) == SessionOutcome::Committed(
            text::trim_spec(t),
        ),
{
}

/// Law: Escape issued after any prefix of continuing keys cancels the
/// session, whatever the buffer holds at that point.
pub proof fn lemma_escape_cancels(t: Seq<char>, x: int, keys: Seq<Key>, i: int)
    requires
        0 <= i < keys.len(),
        keys[i] == Key::Esc,
        forall|j: int| 0 <= j < i ==> key_continues(#[trigger] keys[j]),
    ensures
        session_from(t, x, keys) == SessionOutcome::Cancelled,
    decreases i,
{
    if i == 0 {
    } else {
        let rest = keys.drop_first();
        assert(rest[i - 1] == keys[i]);
        assert(forall|j: int| 0 <= j < i - 1 ==> key_continues(#[trigger] rest[j]));
        lemma_escape_cancels(step_text(t, x, keys[0]), step_col(t, x, keys[0]), rest, i - 1);
    }
}

} // verus!
