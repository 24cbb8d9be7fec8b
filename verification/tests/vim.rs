use fount::editor::{App, AppMode};
use fount::keys::{Key, KeyPress};
use fount::vim::{VimAction, VimResult, vim_plan};

fn modal_app(lines: &[&str]) -> App {
    let mut app = App::new();
    app.lines = lines.iter().map(|l| l.to_string()).collect();
    app.parse_document();
    app.modal_editing = true;
    app
}

fn press(c: char) -> KeyPress {
    KeyPress { code: Key::Char(c), ctrl: false }
}

fn send(app: &mut App, key: KeyPress) -> (VimResult, bool, bool, bool) {
    let (mut t, mut c, mut m) = (false, false, false);
    let r = app.handle_vim_key(key, &mut t, &mut c, &mut m);
    (r, t, c, m)
}

#[test]
fn vim_layer_off_passes_keys_through() {
    let mut app = modal_app(&["hello"]);
    app.modal_editing = false;
    app.cursor_x = 2;
    let (r, t, c, m) = send(&mut app, press('h'));
    assert_eq!(r, VimResult::FallThrough);
    assert_eq!(app.cursor_x, 2);
    assert!(!t && !c && !m);
}

#[test]
fn vim_h_and_l_move_and_clear_the_selection() {
    let mut app = modal_app(&["hello"]);
    app.cursor_x = 2;
    app.selection_anchor = Some((0, 0));
    let (r, t, c, m) = send(&mut app, press('h'));
    assert_eq!(r, VimResult::Handled);
    assert_eq!(app.cursor_x, 1);
    assert_eq!(app.selection_anchor, None);
    assert!(t && !c && m);
    send(&mut app, press('l'));
    send(&mut app, press('l'));
    assert_eq!(app.cursor_x, 3);
}

#[test]
fn vim_e_goes_to_the_end_of_the_word() {
    let mut app = modal_app(&["ab  cde f"]);
    app.cursor_x = 0;
    send(&mut app, press('e'));
    assert_eq!(app.cursor_x, 1);
    send(&mut app, press('e'));
    assert_eq!(app.cursor_x, 6);
    send(&mut app, press('e'));
    assert_eq!(app.cursor_x, 8);
    send(&mut app, press('e'));
    assert_eq!(app.cursor_x, 8);
}

#[test]
fn vim_insert_then_escape_steps_back() {
    let mut app = modal_app(&["hello"]);
    app.cursor_x = 3;
    let (r, _, _, _) = send(&mut app, press('i'));
    assert_eq!(r, VimResult::Handled);
    assert!(app.vim_mode_insert);
    let (r, _, _, _) = send(&mut app, press('z'));
    assert_eq!(r, VimResult::FallThrough);
    assert!(app.vim_mode_insert);
    let (r, t, _, m) = send(&mut app, KeyPress { code: Key::Esc, ctrl: false });
    assert_eq!(r, VimResult::Handled);
    assert!(!app.vim_mode_insert);
    assert_eq!(app.cursor_x, 2);
    assert!(t && m);
}

#[test]
fn vim_escape_at_line_start_stays() {
    let mut app = modal_app(&["hello"]);
    app.vim_mode_insert = true;
    app.cursor_x = 0;
    let (r, t, c, m) = send(&mut app, KeyPress { code: Key::Esc, ctrl: false });
    assert_eq!(r, VimResult::Handled);
    assert_eq!(app.cursor_x, 0);
    assert!(!t && !c && !m);
}

#[test]
fn vim_d_waits_for_its_motion() {
    let mut app = modal_app(&["one", "two words here"]);
    let (r, _, _, _) = send(&mut app, press('d'));
    assert_eq!(r, VimResult::Handled);
    assert_eq!(app.vim_pending_key, Some('d'));
    let (r, t, c, m) = send(&mut app, press('d'));
    assert_eq!(r, VimResult::Handled);
    assert_eq!(app.vim_pending_key, None);
    assert!(t && c && m);
    // `dd` cut the line into the clipboard
    assert_eq!(app.lines, vec!["two words here"]);
    assert_eq!(app.clipboard, "one");
    assert_eq!((app.cursor_y, app.cursor_x), (0, 0));
    send(&mut app, press('d'));
    let (r, _, _, _) = send(&mut app, press('w'));
    assert_eq!(r, VimResult::Handled);
    // `dw` deleted what `w` moves over
    assert_eq!(app.lines, vec![" words here"]);
    assert_eq!(app.cursor_x, 0);
}

#[test]
fn vim_unknown_operator_combination_runs_the_key() {
    let mut app = modal_app(&["hello"]);
    app.cursor_x = 1;
    send(&mut app, press('d'));
    let (r, _, c, _) = send(&mut app, press('x'));
    assert_eq!(r, VimResult::Handled);
    assert!(c);
    assert_eq!(app.lines[0], "hllo");
    assert_eq!(app.vim_pending_key, None);
}

#[test]
fn vim_o_opens_a_line_below_and_capital_o_above() {
    let mut app = modal_app(&["first", "second"]);
    app.cursor_x = 2;
    send(&mut app, press('o'));
    assert_eq!(app.lines, vec!["first", "", "second"]);
    assert_eq!((app.cursor_y, app.cursor_x), (1, 0));
    assert!(app.vim_mode_insert);

    let mut app = modal_app(&["first", "second"]);
    app.cursor_y = 1;
    app.cursor_x = 3;
    send(&mut app, press('O'));
    assert_eq!(app.lines, vec!["first", "", "second"]);
    assert_eq!(app.cursor_y, 1);
    assert!(app.vim_mode_insert);
}

#[test]
fn vim_colon_opens_the_command_panel() {
    let mut app = modal_app(&["hello"]);
    app.command_input = "old".to_string();
    app.command_error = true;
    let (r, _, _, _) = send(&mut app, press(':'));
    assert_eq!(r, VimResult::Handled);
    assert_eq!(app.mode, AppMode::Command);
    assert_eq!(app.previous_mode, AppMode::Normal);
    assert_eq!(app.command_input, "");
    assert!(!app.command_error);
}

#[test]
fn vim_paste_and_control_chords() {
    let mut app = modal_app(&["hello"]);
    app.cursor_x = 1;
    app.clipboard = "XY".to_string();
    let (r, _, _, _) = send(&mut app, press('p'));
    assert_eq!(r, VimResult::Handled);
    // `p` pastes after the cursor's character
    assert_eq!(app.lines[0], "heXYllo");
    assert_eq!(app.cursor_x, 4);
    // `P` pastes at the cursor
    send(&mut app, press('P'));
    assert_eq!(app.lines[0], "heXYXYllo");
    assert_eq!(app.cursor_x, 6);
    app.cursor_x = 2;
    let (r, _, _, _) = send(&mut app, KeyPress { code: Key::Char('h'), ctrl: true });
    assert_eq!(r, VimResult::FallThrough);
    assert_eq!(app.cursor_x, 2);
    let (r, _, _, _) = send(&mut app, KeyPress { code: Key::Up, ctrl: false });
    assert_eq!(r, VimResult::FallThrough);
}

#[test]
fn vim_plan_table() {
    let p = vim_plan(true, true, false, None, press('A'), 0);
    assert_eq!(p.action, VimAction::End);
    assert!(p.insert);
    let p = vim_plan(true, false, false, None, press('A'), 0);
    assert_eq!(p.result, VimResult::FallThrough);
    let p = vim_plan(true, true, false, None, press('u'), 0);
    assert_eq!(p.action, VimAction::Undo);
    let p = vim_plan(true, true, false, None, press('q'), 0);
    assert_eq!(p.result, VimResult::Handled);
    assert_eq!(p.action, VimAction::Nothing);
}

#[test]
fn vim_motions_keep_the_undo_history() {
    let mut app = modal_app(&["hello world"]);
    app.cursor_x = 3;
    app.save_state(true);
    app.insert_char('!');
    app.undo();
    let undo = app.undo_stack.len();
    let redo = app.redo_stack.len();
    assert_eq!(redo, 1);
    for c in ['h', 'l', 'w', 'b', 'e', '0', '$', 'z'] {
        send(&mut app, press(c));
        assert_eq!(app.undo_stack.len(), undo);
        assert_eq!(app.redo_stack.len(), redo);
    }
}

#[test]
fn vim_cut_last_line_and_only_line() {
    let mut app = modal_app(&["a", "b"]);
    app.cursor_y = 1;
    send(&mut app, press('d'));
    send(&mut app, press('d'));
    assert_eq!(app.lines, vec!["a"]);
    assert_eq!(app.cursor_y, 0);
    assert_eq!(app.clipboard, "b");
    send(&mut app, press('d'));
    send(&mut app, press('d'));
    assert_eq!(app.lines, vec![""]);
    assert_eq!(app.clipboard, "a");
}

#[test]
fn vim_dw_at_line_end_joins_the_next_line() {
    let mut app = modal_app(&["ab", "cd"]);
    app.cursor_x = 2;
    send(&mut app, press('d'));
    send(&mut app, press('w'));
    assert_eq!(app.lines, vec!["abcd"]);
    assert_eq!((app.cursor_y, app.cursor_x), (0, 2));
}
