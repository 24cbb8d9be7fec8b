use fount::command::CommandOutcome;
use fount::editor::{App, AppMode};
use fount::keys::{Key, KeyPress};

fn panel(input: &str) -> App {
    let mut app = App::new();
    app.previous_mode = AppMode::Normal;
    app.mode = AppMode::Command;
    app.command_input = input.to_string();
    app
}

fn key(code: Key) -> KeyPress {
    KeyPress { code, ctrl: false }
}

fn commands() -> Vec<String> {
    vec!["export".to_string(), "exit".to_string(), "go".to_string(), "go to".to_string()]
}

#[test]
fn command_escape_closes_the_panel() {
    let mut app = panel("exp");
    app.command_error = true;
    assert_eq!(app.handle_command(key(Key::Esc), &commands()), CommandOutcome::Done);
    assert_eq!(app.mode, AppMode::Normal);
    assert_eq!(app.command_input, "");
    assert!(!app.command_error);
}

#[test]
fn command_tab_completes_and_cycles() {
    let mut app = panel("e");
    app.handle_command(key(Key::Tab), &commands());
    assert_eq!(app.command_input, "export");
    let mut app = panel("go");
    app.handle_command(key(Key::Tab), &commands());
    assert_eq!(app.command_input, "go to");
    app.handle_command(key(Key::Tab), &commands());
    assert_eq!(app.command_input, "go to");
    let mut app = panel("zz");
    app.handle_command(key(Key::Tab), &commands());
    assert_eq!(app.command_input, "zz");
}

#[test]
fn command_right_takes_the_first_longer_completion() {
    let mut app = panel("ex");
    app.handle_command(key(Key::Right), &commands());
    assert_eq!(app.command_input, "export");
    let mut app = panel("go");
    app.handle_command(key(Key::Right), &commands());
    assert_eq!(app.command_input, "go to");
    let mut app = panel("");
    app.handle_command(key(Key::Right), &commands());
    assert_eq!(app.command_input, "");
}

#[test]
fn command_backspace_deletes_and_closes_when_empty() {
    let mut app = panel("ab");
    app.command_error = true;
    app.handle_command(key(Key::Backspace), &commands());
    assert_eq!(app.command_input, "a");
    assert_eq!(app.mode, AppMode::Command);
    assert!(!app.command_error);
    app.handle_command(key(Key::Backspace), &commands());
    assert_eq!(app.command_input, "");
    assert_eq!(app.mode, AppMode::Normal);
}

#[test]
fn command_typing_and_enter() {
    let mut app = panel("sav");
    app.handle_command(key(Key::Char('e')), &commands());
    assert_eq!(app.command_input, "save");
    assert_eq!(app.handle_command(key(Key::Enter), &commands()), CommandOutcome::Execute);
    assert_eq!(app.command_input, "save");
}

#[test]
fn command_keys_outside_the_panel_do_nothing() {
    let mut app = panel("x");
    app.mode = AppMode::Normal;
    assert_eq!(app.handle_command(key(Key::Enter), &commands()), CommandOutcome::Done);
    app.handle_command(key(Key::Char('y')), &commands());
    assert_eq!(app.command_input, "x");
}
