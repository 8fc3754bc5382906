use quicommand::input::input_from_keys;
use quicommand::input::Input;
use quicommand::input::InputError;
use quicommand::input::Key;
use quicommand::mock_stdout::MockStdout;
use quicommand::term_writer::TermCursor;
use quicommand::term_writer::TermWriter;

fn run(keys: Vec<Key>) -> Result<Input, InputError> {
    let mut stdout = MockStdout::new();
    input_from_keys(keys, &mut stdout)
}

#[test]
fn end_of_keys_commits_text() {
    let keys = vec![
        Key::Char('t'),
        Key::Char('e'),
        Key::Char('s'),
        Key::Char('t'),
    ];
    assert_eq!(run(keys).unwrap(), Input::Text("test".to_string()));
}

#[test]
fn insert_then_backspace_restores_text() {
    // "ab", cursor left once, insert 'x', backspace: back to "ab"
    let keys = vec![
        Key::Char('a'),
        Key::Char('b'),
        Key::Left,
        Key::Char('x'),
        Key::Backspace,
        Key::Char('\n'),
    ];
    assert_eq!(run(keys).unwrap(), Input::Text("ab".to_string()));
}

#[test]
fn cursor_stops_at_left_edge() {
    let keys = vec![Key::Left, Key::Left, Key::Char('a'), Key::Char('\n')];
    assert_eq!(run(keys).unwrap(), Input::Text("a".to_string()));
}

#[test]
fn backspace_at_left_edge_is_ignored() {
    let keys = vec![Key::Backspace, Key::Char('a'), Key::Char('\n')];
    assert_eq!(run(keys).unwrap(), Input::Text("a".to_string()));
}

#[test]
fn cursor_stops_at_right_edge() {
    let keys = vec![
        Key::Char('a'),
        Key::Right,
        Key::Right,
        Key::Char('b'),
        Key::Char('\n'),
    ];
    assert_eq!(run(keys).unwrap(), Input::Text("ab".to_string()));
}

#[test]
fn right_moves_back_after_left() {
    let keys = vec![
        Key::Char('a'),
        Key::Char('b'),
        Key::Left,
        Key::Left,
        Key::Right,
        Key::Char('x'),
        Key::Char('\n'),
    ];
    assert_eq!(run(keys).unwrap(), Input::Text("axb".to_string()));
}

#[test]
fn commit_trims_whitespace() {
    let keys = vec![
        Key::Char(' '),
        Key::Char('t'),
        Key::Char(' '),
        Key::Char('\n'),
    ];
    assert_eq!(run(keys).unwrap(), Input::Text("t".to_string()));
}

#[test]
fn blank_commit_is_refused() {
    let keys = vec![Key::Char(' '), Key::Char(' '), Key::Char('\n')];
    let err = run(keys).unwrap_err();
    assert!(matches!(err, InputError::EmptyString));
    assert_eq!(err.message(), "Input was empty");
}

#[test]
fn unicode_whitespace_is_trimmed() {
    // an ideographic space's low byte is ASCII, so the editor accepts it;
    // trimming treats it as whitespace, just as str::trim does
    let keys = vec![Key::Char('\u{3000}'), Key::Char('\n')];
    let err = run(keys).unwrap_err();
    assert!(matches!(err, InputError::EmptyString));

    let keys = vec![Key::Char('\u{3000}'), Key::Char('a'), Key::Char('\n')];
    assert_eq!(run(keys).unwrap(), Input::Text("a".to_string()));

    // the committed text is what str::trim leaves
    let raw = "\u{3000}a\u{2003}";
    let keys: Vec<Key> = raw.chars().map(Key::Char).chain([Key::Char('\n')]).collect();
    assert_eq!(run(keys).unwrap(), Input::Text(raw.trim().to_string()));
}

#[test]
fn escape_after_ignored_keys_cancels_silently() {
    let mut stdout = MockStdout::new();
    let keys = vec![Key::Other, Key::Other, Key::Esc];
    assert_eq!(input_from_keys(keys, &mut stdout).unwrap(), Input::Cancel);
    assert_eq!(stdout.buffer, "");

    let mut stdout = MockStdout::new();
    let keys = vec![Key::Other, Key::Char('\n')];
    let err = input_from_keys(keys, &mut stdout).unwrap_err();
    assert!(matches!(err, InputError::EmptyString));
    assert_eq!(stdout.buffer, "");
}

#[test]
fn escape_cancels_mid_input() {
    let keys = vec![Key::Char('t'), Key::Char('e'), Key::Esc, Key::Char('x')];
    assert_eq!(run(keys).unwrap(), Input::Cancel);
}

#[test]
fn escape_cancels_immediately() {
    let keys = vec![Key::Esc];
    assert_eq!(run(keys).unwrap(), Input::Cancel);
}

#[test]
fn non_ascii_byte_is_refused() {
    let keys = vec![Key::Char('é')];
    let err = run(keys).unwrap_err();
    match &err {
        InputError::NotUTF8(bytes) => assert_eq!(bytes, &vec![0xE9u8]),
        other => panic!("unexpected: {:?}", other),
    }
    assert_eq!(err.message(), "Input contained non-UTF8 bytes: 0xE9");
}

#[test]
fn wide_char_with_ascii_low_byte_is_kept() {
    // U+0100 truncates to byte 0x00, which is valid UTF-8 on its own, so
    // the character itself is inserted.
    let keys = vec![Key::Char('\u{100}'), Key::Char('\n')];
    assert_eq!(run(keys).unwrap(), Input::Text("\u{100}".to_string()));
}

#[test]
fn unknown_keys_are_ignored() {
    let keys = vec![Key::Other, Key::Char('a'), Key::Other, Key::Char('\n')];
    assert_eq!(run(keys).unwrap(), Input::Text("a".to_string()));
}

#[test]
fn empty_key_stream_commits_empty_text() {
    let keys: Vec<Key> = Vec::new();
    assert_eq!(run(keys).unwrap(), Input::Text("".to_string()));
}

#[test]
fn insert_redraws_current_line() {
    let mut stdout = MockStdout::new();
    let keys = vec![Key::Char('a')];
    let r = input_from_keys(keys, &mut stdout).unwrap();
    assert_eq!(r, Input::Text("a".to_string()));
    // home to (1,1), clear the line, rewrite "a", cursor to column 2
    assert_eq!(stdout.buffer, "\u{1b}[1;1H\u{1b}[2Ka\u{1b}[1;2H");
}

#[test]
fn left_writes_left_sequence() {
    let mut stdout = MockStdout::new();
    let keys = vec![Key::Char('a'), Key::Left];
    input_from_keys(keys, &mut stdout).unwrap();
    assert!(stdout.buffer.ends_with("\u{1b}[1D"));
}

#[test]
fn right_writes_right_sequence() {
    let mut stdout = MockStdout::new();
    let keys = vec![Key::Char('a'), Key::Left, Key::Right];
    input_from_keys(keys, &mut stdout).unwrap();
    assert!(stdout.buffer.ends_with("\u{1b}[1C"));
}

#[test]
fn left_at_edge_writes_nothing() {
    let mut stdout = MockStdout::new();
    let keys = vec![Key::Left];
    input_from_keys(keys, &mut stdout).unwrap();
    assert_eq!(stdout.buffer, "");
}

#[test]
fn right_at_edge_writes_nothing() {
    let mut stdout = MockStdout::new();
    let keys = vec![Key::Char('a'), Key::Right];
    input_from_keys(keys, &mut stdout).unwrap();
    // only the insert's redraw; the refused move adds nothing
    assert_eq!(stdout.buffer, "\u{1b}[1;1H\u{1b}[2Ka\u{1b}[1;2H");
}

#[test]
fn backspace_at_edge_writes_nothing() {
    let mut stdout = MockStdout::new();
    let keys = vec![Key::Backspace];
    input_from_keys(keys, &mut stdout).unwrap();
    assert_eq!(stdout.buffer, "");
}

#[test]
fn terminating_keys_write_nothing() {
    let mut stdout = MockStdout::new();
    assert_eq!(
        input_from_keys(vec![Key::Esc], &mut stdout).unwrap(),
        Input::Cancel
    );
    assert_eq!(stdout.buffer, "");

    let mut stdout = MockStdout::new();
    let err = input_from_keys(vec![Key::Char('\n')], &mut stdout).unwrap_err();
    assert!(matches!(err, InputError::EmptyString));
    assert_eq!(stdout.buffer, "");

    let mut stdout = MockStdout::new();
    input_from_keys(vec![Key::Other], &mut stdout).unwrap();
    assert_eq!(stdout.buffer, "");
}

#[test]
fn backspace_redraws_without_deleted_char() {
    let mut stdout = MockStdout::new();
    let keys = vec![Key::Char('a'), Key::Char('b'), Key::Backspace];
    let r = input_from_keys(keys, &mut stdout).unwrap();
    assert_eq!(r, Input::Text("a".to_string()));
    // the final redraw writes the remaining text "a" after a clear-line
    assert!(stdout.buffer.contains("\u{1b}[2Ka\u{1b}"));
}

#[test]
fn handle_key_steps_one_session() {
    let mut stdout = MockStdout::new();
    let mut tw = TermWriter::new(String::new());
    assert!(matches!(tw.handle_key(&mut stdout, Key::Char('h')), Ok(None)));
    assert!(matches!(tw.handle_key(&mut stdout, Key::Other), Ok(None)));
    let done = tw.handle_key(&mut stdout, Key::Char('\n')).unwrap();
    assert_eq!(done, Some(Input::Text("h".to_string())));
}

#[test]
fn enter_on_session_commits_trimmed() {
    let mut stdout = MockStdout::new();
    let mut tw = TermWriter::new(String::new());
    for c in [' ', 'h', 'i', ' '] {
        tw.handle_key(&mut stdout, Key::Char(c)).unwrap();
    }
    let r = tw.enter().unwrap();
    assert_eq!(r, Input::Text("hi".to_string()));
}

#[test]
fn mock_stdout_advances_column_on_clear_line() {
    let mut m = MockStdout::new();
    assert_eq!(m.get_cursor_pos().unwrap(), (1, 1));
    m.write_term("plain text").unwrap();
    assert_eq!(m.get_cursor_pos().unwrap(), (1, 1));
    m.write_term("ab\u{1b}[2Kcd").unwrap();
    assert_eq!(m.get_cursor_pos().unwrap(), (2, 1));
    assert_eq!(m.buffer, "plain textab\u{1b}[2Kcd");
}
