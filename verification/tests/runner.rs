use quicommand::cmd_runner::capture_lines;
use quicommand::cmd_runner::echo_line;
use quicommand::cmd_runner::launcher_invocation;
use quicommand::cmd_runner::CmdType;
use quicommand::input::Input;
use quicommand::input::InputError;
use quicommand::input::Key;
use quicommand::keyboard_shortcut::KeyboardShortcut;
use quicommand::keymap::Keymap;
use quicommand::mock_stdout::MockStdout;
use quicommand::screen::Screen;
use quicommand::step::Process;
use quicommand::step::Step;
use quicommand::text::replace_str;
use quicommand::utils::escape_backticks;
use quicommand::utils::starts_with_any;

fn setup_step() -> Step<MockStdout> {
    Step::new(Screen::new(MockStdout::new()))
}

#[test]
fn simple_capture_scenario() {
    // template `echo {}`, typed input `test`: the command becomes `echo test`
    let mut step = setup_step();
    let keymap = Keymap::new('t', "echo {}").with_prompt("Enter text:");
    let keys = vec![
        Key::Char('t'),
        Key::Char('e'),
        Key::Char('s'),
        Key::Char('t'),
        Key::Char('\n'),
    ];
    let input = step.input_from_prompt(keymap.prompt.as_deref(), keys);
    let output = step.process_input(input, &keymap).unwrap();
    match output {
        Process::Run(cmd, ty) => {
            assert_eq!(cmd, "echo test");
            assert_eq!(ty, CmdType::Script);
        }
        Process::Exit => panic!(),
    }
    // what such a run of `echo test` hands back, stream by stream
    assert_eq!(capture_lines(&vec!["test".to_string()]), "test");
    assert_eq!(capture_lines(&Vec::new()), "");
}

#[test]
fn no_prompt_command_runs_unmodified() {
    let mut step = setup_step();
    let keymap = Keymap::new('s', "git status");
    let keys: Vec<Key> = Vec::new();
    let input = step.input_from_prompt(None, keys);
    assert_eq!(input.as_ref().unwrap(), &Input::NoInput);
    // no prompt: nothing was written to the screen
    assert_eq!(step.screen.stdout.buffer, "");
    let output = step.process_input(input, &keymap).unwrap();
    match output {
        Process::Run(cmd, ty) => {
            assert_eq!(cmd, "git status");
            assert_eq!(ty, CmdType::Script);
        }
        Process::Exit => panic!(),
    }
}

#[test]
fn backtick_escaping_scenario() {
    // input `a`b` substituted into `echo {}` runs as literal text
    let mut step = setup_step();
    let keymap = Keymap::new('t', "echo {}").with_prompt("Enter text:");
    let keys = vec![
        Key::Char('a'),
        Key::Char('`'),
        Key::Char('b'),
        Key::Char('\n'),
    ];
    let input = step.input_from_prompt(keymap.prompt.as_deref(), keys);
    let output = step.process_input(input, &keymap).unwrap();
    match output {
        Process::Run(cmd, _) => assert_eq!(cmd, "echo a\\`b"),
        Process::Exit => panic!(),
    }
}

#[test]
fn interactive_command_is_classified() {
    let mut step = setup_step();
    let keymap = Keymap::new('m', "hx src/main.rs");
    let input = step.input_from_prompt(None, Vec::new());
    let output = step.process_input(input, &keymap).unwrap();
    assert!(matches!(output, Process::Run(_, CmdType::Interactive)));
}

#[test]
fn classification_by_prefix() {
    assert_eq!(CmdType::from_str("hx notes.md").unwrap(), CmdType::Interactive);
    assert_eq!(CmdType::from_str("vi notes.md").unwrap(), CmdType::Interactive);
    assert_eq!(CmdType::from_str("fzf").unwrap(), CmdType::Interactive);
    assert_eq!(CmdType::from_str("echo hi").unwrap(), CmdType::Script);
    assert_eq!(CmdType::from_str("git status").unwrap(), CmdType::Script);
    assert_eq!(CmdType::from_str("").unwrap(), CmdType::Script);
}

#[test]
fn streams_are_captured_independently() {
    // two lines on one stream, one on the other, in whatever interleaving:
    // each capture holds exactly its own lines, in order
    let out_lines = vec!["out1".to_string(), "out2".to_string()];
    let err_lines = vec!["err1".to_string()];
    assert_eq!(capture_lines(&out_lines), "out1out2");
    assert_eq!(capture_lines(&err_lines), "err1");
}

#[test]
fn echo_line_appends_crlf() {
    assert_eq!(echo_line("test"), "test\r\n");
    assert_eq!(echo_line(""), "\r\n");
}

#[test]
fn launcher_argv_wraps_command() {
    let argv = launcher_invocation("echo hi");
    assert_eq!(argv, vec!["script", "-qec", "echo hi", "/dev/null"]);
}

#[test]
fn escape_backticks_prefixes_backslash() {
    assert_eq!(escape_backticks("a`b"), "a\\`b");
    assert_eq!(escape_backticks("no ticks"), "no ticks");
    assert_eq!(escape_backticks("``"), "\\`\\`");
    assert_eq!(escape_backticks(""), "");
}

#[test]
fn starts_with_any_finds_prefix() {
    let pats = vec!["hx", "vi", "fzf"];
    assert!(starts_with_any("vim x", &pats));
    assert!(starts_with_any("fzf", &pats));
    assert!(!starts_with_any("echo", &pats));
    assert!(!starts_with_any("f", &pats));
}

#[test]
fn replace_str_replaces_every_occurrence() {
    assert_eq!(replace_str("echo {} {}", "{}", "x"), "echo x x");
    assert_eq!(replace_str("no placeholder", "{}", "x"), "no placeholder");
    assert_eq!(replace_str("abc", "", "x"), "abc");
    assert_eq!(replace_str("aaa", "aa", "b"), "ba");
}

#[test]
fn error_messages_are_exact() {
    assert_eq!(
        InputError::NotUTF8(vec![0xE9, 0x10]).message(),
        "Input contained non-UTF8 bytes: 0xE9 0x10"
    );
    assert_eq!(InputError::EmptyString.message(), "Input was empty");
    assert_eq!(
        InputError::IoError("broken pipe".to_string()).message(),
        "I/O Error: broken pipe"
    );
}

#[test]
fn screen_writes_exact_sequences() {
    let mut screen = Screen::new(MockStdout::new());
    screen.show_cursor().unwrap();
    assert_eq!(screen.stdout.buffer, "\u{1b}[?25h");

    let mut screen = Screen::new(MockStdout::new());
    screen.clear_all().unwrap();
    assert_eq!(screen.stdout.buffer, "\u{1b}[2J\u{1b}[1;1H\u{1b}[?25l");

    let mut screen = Screen::new(MockStdout::new());
    screen.show_prompt("hi").unwrap();
    assert_eq!(screen.stdout.buffer, "hi\r\n");

    let mut screen = Screen::new(MockStdout::new());
    screen.add_newline().unwrap();
    assert_eq!(screen.stdout.buffer, "\r\n");
}

#[test]
fn keymap_builders_fill_fields() {
    let k = Keymap::new('c', "git commit -m \"{}\"");
    assert_eq!(k.key, 'c');
    assert_eq!(k.cmd, "git commit -m \"{}\"");
    assert_eq!(k.description, "git commit -m \"{}\"");
    assert!(k.prompt.is_none());

    let k = k.with_description("Git commit").with_prompt("Enter commit message:");
    assert_eq!(k.description, "Git commit");
    assert_eq!(k.prompt.as_deref(), Some("Enter commit message:"));
    assert_eq!(k.cmd, "git commit -m \"{}\"");
}

#[test]
fn keyboard_shortcut_substitutes_placeholder() {
    let s = KeyboardShortcut {
        key: 'c',
        description: "commit",
        command: "git commit -m '%s'",
        input_placeholder: "%s",
    };
    assert_eq!(s.command_line("fix a `bug`"), "git commit -m 'fix a \\`bug\\`'");
}

#[test]
fn process_input_reports_errors() {
    let step = setup_step();
    let keymap = Keymap::new('t', "echo {}");
    let output = step.process_input(Err(InputError::EmptyString), &keymap);
    assert!(matches!(output, Err(InputError::EmptyString)));
}

#[test]
fn cancelled_input_runs_nothing() {
    let step = setup_step();
    let keymap = Keymap::new('t', "echo {}");
    let output = step.process_input(Ok(Input::Cancel), &keymap).unwrap();
    assert!(matches!(output, Process::Exit));
}
