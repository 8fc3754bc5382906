//! The ANSI control sequences the launcher writes, produced by termion and
//! pinned down character by character, so that contracts elsewhere can say
//! exactly what reaches the terminal.

use vstd::prelude::*;

verus! {

/// The decimal digit character for `n < 10`.
pub open spec fn dec_digit(n: nat) -> char
    recommends
        n < 10,
{
    if n == 0 {
        '0'
    } else if n == 1 {
        '1'
    } else if n == 2 {
        '2'
    } else if n == 3 {
        '3'
    } else if n == 4 {
        '4'
    } else if n == 5 {
        '5'
    } else if n == 6 {
        '6'
    } else if n == 7 {
        '7'
    } else if n == 8 {
        '8'
    } else {
        '9'
    }
}

/// The decimal rendering of `n`, most significant digit first.
pub open spec fn dec_rep(n: nat) -> Seq<char>
    decreases n,
{
    if n < 10 {
        seq![dec_digit(n)]
    } else {
        dec_rep(n / 10).push(dec_digit(n % 10))
    }
}

/// A control sequence: the CSI introducer followed by the given body.
pub open spec fn csi(body: Seq<char>) -> Seq<char> {
    seq!['\u{1b}', '['] + body
}

/// The sequence that moves the cursor left by `n` columns.
pub open spec fn left_seq(n: u16) -> Seq<char> {
    csi(dec_rep(n as nat).push('D'))
}

/// The sequence that moves the cursor right by `n` columns.
pub open spec fn right_seq(n: u16) -> Seq<char> {
    csi(dec_rep(n as nat).push('C'))
}

/// The sequence that moves the cursor to column `x`, row `y` (both 1-based).
pub open spec fn goto_seq(x: u16, y: u16) -> Seq<char> {
    csi(dec_rep(y as nat) + seq![';'] + dec_rep(x as nat) + seq!['H'])
}

/// The sequence that makes the cursor visible.
pub open spec fn show_seq() -> Seq<char> {
    csi(seq!['?', '2', '5', 'h'])
}

/// The sequence that hides the cursor.
pub open spec fn hide_seq() -> Seq<char> {
    csi(seq!['?', '2', '5', 'l'])
}

/// The sequence that clears the current line.
pub open spec fn clear_line_seq() -> Seq<char> {
    csi(seq!['2', 'K'])
}

/// The sequence that clears the whole screen.
pub open spec fn clear_all_seq() -> Seq<char> {
    csi(seq!['2', 'J'])
}

/// Relies on `termion::cursor::Left`: displays as `ESC [ n D`, with `n` in
/// decimal.
#[verifier::external_body]
pub(crate) fn cursor_left(n: u16) -> (r: String)
    ensures
        r@ == left_seq(n),
{
    format!("{}", termion::cursor::Left(n))
}

/// Relies on `termion::cursor::Right`: displays as `ESC [ n C`, with `n` in
/// decimal.
#[verifier::external_body]
pub(crate) fn cursor_right(n: u16) -> (r: String)
    ensures
        r@ == right_seq(n),
{
    format!("{}", termion::cursor::Right(n))
}

/// Relies on `termion::cursor::Goto`: displays as `ESC [ y ; x H`, row
/// first, both in decimal. Termion asserts that (0, 0) is never used, so
/// the origin (1, 1) of its one-based grid is required here.
#[verifier::external_body]
pub(crate) fn cursor_goto(x: u16, y: u16) -> (r: String)
    requires
        x >= 1,
        y >= 1,
    ensures
        r@ == goto_seq(x, y),
{
    format!("{}", termion::cursor::Goto(x, y))
}

/// Relies on `termion::cursor::Show`: displays as `ESC [ ? 2 5 h`.
#[verifier::external_body]
pub(crate) fn cursor_show() -> (r: String)
    ensures
        r@ == show_seq(),
{
    format!("{}", termion::cursor::Show)
}

/// Relies on `termion::cursor::Hide`: displays as `ESC [ ? 2 5 l`.
#[verifier::external_body]
pub(crate) fn cursor_hide() -> (r: String)
    ensures
        r@ == hide_seq(),
{
    format!("{}", termion::cursor::Hide)
}

/// Relies on `termion::clear::CurrentLine`: displays as `ESC [ 2 K`.
#[verifier::external_body]
pub(crate) fn clear_line() -> (r: String)
    ensures
        r@ == clear_line_seq(),
{
    format!("{}", termion::clear::CurrentLine)
}

/// Relies on `termion::clear::All`: displays as `ESC [ 2 J`.
#[verifier::external_body]
pub(crate) fn clear_all() -> (r: String)
    ensures
        r@ == clear_all_seq(),
{
    format!("{}", termion::clear::All)
}

} // verus!
