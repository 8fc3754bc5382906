use quicommand::input::Key;
use quicommand::keymap::Keymap;
use quicommand::mock_stdout::MockStdout;
use quicommand::screen::Screen;
use quicommand::step::Process;
use quicommand::step::Step;

fn get_keymaps() -> Vec<Keymap> {
    vec![Keymap::new('t', "echo 'test'")]
}

fn get_keymaps_with_description() -> Vec<Keymap> {
    vec![Keymap::new('t', "echo {}").with_description("Test description")]
}

fn get_keymaps_with_prompt() -> Vec<Keymap> {
    vec![Keymap::new('t', "echo {}").with_prompt("Test prompt")]
}

fn setup_step() -> Step<MockStdout> {
    let stdout = MockStdout::new();
    let screen = Screen::new(stdout);
    Step::new(screen)
}

#[test]
fn keymap() {
    let keymaps = get_keymaps();
    let mut step = setup_step();

    step.show_select_cmd(&keymaps).unwrap();

    let stdout_str = step.screen.stdout.buffer.clone();
    let has_prompt = stdout_str.contains("Please select a command:");
    let has_menu = stdout_str.contains("t  echo 'test'");

    assert!(has_prompt && has_menu);
}

#[test]
fn keymap_with_description() {
    let keymaps = get_keymaps_with_description();
    let mut step = setup_step();

    step.show_select_cmd(&keymaps).unwrap();

    let stdout_str = step.screen.stdout.buffer.clone();
    let has_prompt = stdout_str.contains("Please select a command:");
    let has_menu = stdout_str.contains("Test description");

    assert!(has_prompt && has_menu);
}

#[test]
fn command_with_prompt() {
    let mut step = setup_step();
    let keymap = get_keymaps_with_prompt().into_iter().next().unwrap();
    let keys: Vec<Key> = Vec::new();

    step.input_from_prompt(keymap.prompt.as_deref(), keys).unwrap();

    let stdout_str = step.screen.stdout.buffer.clone();

    assert!(stdout_str.contains("Test prompt"));
}

#[test]
fn command_with_empty_input() {
    let mut step = setup_step();
    let keymap = get_keymaps_with_prompt().into_iter().next().unwrap();
    let keys = vec![Key::Char('\n')];
    let input = step.input_from_prompt(keymap.prompt.as_deref(), keys);
    let output = step.process_input(input, &keymap);

    let Err(input_error) = output else {
        panic!();
    };

    assert_eq!(input_error.message(), "Input was empty");
}

#[test]
fn command_with_cancelled_input() {
    let mut step = setup_step();
    let keymap = get_keymaps_with_prompt().into_iter().next().unwrap();
    let keys = vec![Key::Esc];
    let input = step.input_from_prompt(keymap.prompt.as_deref(), keys);
    let output = step.process_input(input, &keymap);

    assert!(matches!(output.unwrap(), Process::Exit));
}

#[test]
fn test_show_keymap_menu() {
    let keymaps = vec![Keymap::new('t', "echo 'test'").with_description("Test keymap")];

    let menu_items: Vec<String> = keymaps
        .iter()
        .map(|keymap| format!("{}  {}", keymap.key, keymap.description))
        .collect();

    let stdout = MockStdout::new();
    let mut screen = Screen::new(stdout);

    screen.show_menu(&menu_items).unwrap();

    let stdout_str = screen.stdout.buffer.clone();

    assert!(stdout_str.contains("t  Test keymap"));
}

#[test]
fn command_with_input_prompt() {
    let keymaps = vec![
        Keymap::new('t', "echo {}")
            .with_description("Test keymap")
            .with_prompt("Test prompt"),
    ];
    let mut step = setup_step();
    let keys: Vec<Key> = Vec::new();

    let test = step
        .input_from_prompt(keymaps[0].prompt.as_deref(), keys)
        .unwrap();

    println!("TEST: {:?}", test);

    let stdout_str = step.screen.stdout.buffer.clone();

    assert!(stdout_str.contains("Test prompt"));
}

#[test]
fn tests_command_with_empty_input() {
    let keymaps = vec![
        Keymap::new('t', "echo {}")
            .with_description("Test keymap")
            .with_prompt("Test prompt"),
    ];
    let mut step = setup_step();
    let keys = vec![Key::Char('\n')];
    let input = step.input_from_prompt(keymaps[0].prompt.as_deref(), keys);
    let output = step.process_input(input, &keymaps[0]);

    let Err(input_error) = output else {
        panic!();
    };

    assert_eq!(input_error.message(), "Input was empty");
}

#[test]
fn tests_command_with_cancelled_input() {
    let keymaps = vec![
        Keymap::new('t', "echo {}")
            .with_description("Test keymap")
            .with_prompt("Test prompt"),
    ];
    let mut step = setup_step();
    let keys = vec![Key::Esc];
    let input = step.input_from_prompt(keymaps[0].prompt.as_deref(), keys);
    let output = step.process_input(input, &keymaps[0]);

    assert!(matches!(output.unwrap(), Process::Exit));
}
