use fount::editor::{App, AppMode};
use fount::keys::{Key, KeyPress};
use fount::navigation::{EnsembleRow, NavOutcome, SceneEntry};

fn key(code: Key) -> KeyPress {
    KeyPress { code, ctrl: false }
}

fn tree_app() -> (App, Vec<SceneEntry>) {
    let mut app = App::new();
    app.lines = (0..10).map(|i| format!("line {}", i)).collect();
    app.mode = AppMode::SceneTree;
    app.nav_original_pos = Some((3, 2));
    app.cursor_y = 3;
    app.cursor_x = 2;
    app.selected_scene = 1;
    let visible = vec![
        SceneEntry { line_idx: 0, is_section: false },
        SceneEntry { line_idx: 5, is_section: true },
        SceneEntry { line_idx: 8, is_section: false },
    ];
    (app, visible)
}

fn nav(app: &mut App, k: KeyPress, visible: &Vec<SceneEntry>) -> (NavOutcome, bool, bool) {
    let (mut t, mut m) = (false, false);
    let r = app.handle_navigation(k, visible, &mut t, &mut m);
    (r, t, m)
}

#[test]
fn scene_tree_up_and_down_follow_the_rows() {
    let (mut app, vis) = tree_app();
    let (r, t, m) = nav(&mut app, key(Key::Down), &vis);
    assert_eq!(r, NavOutcome::Done);
    assert_eq!(app.selected_scene, 2);
    assert_eq!(app.cursor_y, 8);
    assert!(!t && m);
    let (_, _, m) = nav(&mut app, key(Key::Down), &vis);
    assert_eq!(app.selected_scene, 2);
    assert!(!m);
    nav(&mut app, key(Key::Up), &vis);
    nav(&mut app, key(Key::Up), &vis);
    assert_eq!(app.selected_scene, 0);
    assert_eq!(app.cursor_y, 0);
    let (_, _, m) = nav(&mut app, key(Key::Up), &vis);
    assert_eq!(app.selected_scene, 0);
    assert!(!m);
}

#[test]
fn scene_tree_tab_folds_a_section_and_enter_jumps() {
    let (mut app, vis) = tree_app();
    nav(&mut app, key(Key::Tab), &vis);
    assert!(app.collapsed_sections.contains(&5));
    assert_eq!(app.mode, AppMode::SceneTree);
    nav(&mut app, key(Key::Tab), &vis);
    assert!(!app.collapsed_sections.contains(&5));
    let (_, t, m) = nav(&mut app, key(Key::Enter), &vis);
    assert_eq!((app.cursor_y, app.cursor_x), (5, 0));
    assert_eq!(app.mode, AppMode::Normal);
    assert_eq!(app.nav_original_pos, None);
    assert!(t && m);
}

#[test]
fn scene_tree_tab_on_a_scene_jumps() {
    let (mut app, vis) = tree_app();
    app.selected_scene = 2;
    nav(&mut app, key(Key::Tab), &vis);
    assert_eq!((app.cursor_y, app.cursor_x), (8, 0));
    assert_eq!(app.mode, AppMode::Normal);
}

#[test]
fn scene_tree_escape_goes_back() {
    let (mut app, vis) = tree_app();
    nav(&mut app, key(Key::Down), &vis);
    let (_, t, m) = nav(&mut app, key(Key::Esc), &vis);
    assert_eq!((app.cursor_y, app.cursor_x), (3, 2));
    assert_eq!(app.mode, AppMode::Normal);
    assert_eq!(app.status_msg.as_deref(), Some("Cancelled"));
    assert!(t && m);
}

#[test]
fn scene_tree_control_keys() {
    let (mut app, vis) = tree_app();
    nav(&mut app, KeyPress { code: Key::Char('p'), ctrl: true }, &vis);
    assert_eq!(app.mode, AppMode::SettingsPane);
    let (mut app, vis) = tree_app();
    nav(&mut app, KeyPress { code: Key::Char('t'), ctrl: true }, &vis);
    assert_eq!(app.mode, AppMode::Normal);
    assert_eq!(app.nav_original_pos, None);
    assert_eq!((app.cursor_y, app.cursor_x), (3, 2));
    let (mut app, vis) = tree_app();
    nav(&mut app, key(Key::Char('t')), &vis);
    assert_eq!(app.mode, AppMode::SceneTree);
}

fn navigator_app() -> App {
    let mut app = App::new();
    app.lines = (0..12).map(|i| format!("line {}", i)).collect();
    app.mode = AppMode::CharacterNavigator;
    app.ensemble_items = vec![
        EnsembleRow::Header { character: 0, first_line: Some(4) },
        EnsembleRow::Scene { line_idx: 4 },
        EnsembleRow::Other,
        EnsembleRow::Scene { line_idx: 9 },
        EnsembleRow::Header { character: 1, first_line: None },
    ];
    app
}

#[test]
fn navigator_down_skips_rows_that_cannot_be_selected() {
    let mut app = navigator_app();
    let none = Vec::new();
    let (_, t, m) = nav(&mut app, key(Key::Down), &none);
    assert_eq!(app.selected_ensemble_idx, 1);
    assert_eq!((app.cursor_y, app.cursor_x), (4, 0));
    assert!(t && m);
    nav(&mut app, key(Key::Down), &none);
    assert_eq!(app.selected_ensemble_idx, 3);
    assert_eq!(app.cursor_y, 9);
    let (_, t, m) = nav(&mut app, key(Key::Down), &none);
    assert_eq!(app.selected_ensemble_idx, 4);
    assert_eq!(app.cursor_y, 9);
    assert!(!t && !m);
    nav(&mut app, key(Key::Down), &none);
    assert_eq!(app.selected_ensemble_idx, 4);
    nav(&mut app, key(Key::Up), &none);
    assert_eq!(app.selected_ensemble_idx, 3);
    nav(&mut app, key(Key::Up), &none);
    assert_eq!(app.selected_ensemble_idx, 1);
}

#[test]
fn navigator_enter_and_tab() {
    let mut app = navigator_app();
    let none = Vec::new();
    let (r, _, _) = nav(&mut app, key(Key::Tab), &none);
    assert_eq!(r, NavOutcome::ToggleCharacter(0));
    let (r, _, _) = nav(&mut app, key(Key::Char(' ')), &none);
    assert_eq!(r, NavOutcome::ToggleCharacter(0));
    app.selected_ensemble_idx = 4;
    let (_, t, m) = nav(&mut app, key(Key::Enter), &none);
    assert_eq!(app.mode, AppMode::CharacterNavigator);
    assert!(!t && !m);
    app.selected_ensemble_idx = 0;
    nav(&mut app, key(Key::Enter), &none);
    assert_eq!((app.cursor_y, app.cursor_x), (4, 0));
    assert_eq!(app.mode, AppMode::Normal);
}

#[test]
fn navigator_selects_a_character_again() {
    let mut app = navigator_app();
    app.select_character(1);
    assert_eq!(app.selected_ensemble_idx, 4);
    app.select_character(7);
    assert_eq!(app.selected_ensemble_idx, 0);
}

#[test]
fn navigation_keys_elsewhere_do_nothing() {
    let (mut app, vis) = tree_app();
    app.mode = AppMode::Normal;
    let (r, t, m) = nav(&mut app, key(Key::Down), &vis);
    assert_eq!(r, NavOutcome::Done);
    assert_eq!(app.selected_scene, 1);
    assert!(!t && !m);
}
