use fount::editor::{App, AppMode};
use fount::shortcuts::get_all_shortcuts;
use fount::snapshots::Snapshot;

fn app_with(lines: &[&str]) -> App {
    let mut app = App::new();
    app.lines = lines.iter().map(|s| s.to_string()).collect();
    app.parse_document();
    app
}

#[test]
fn shortcut_table_complete() {
    let s = get_all_shortcuts();
    assert_eq!(s.len(), 65);
    assert_eq!((s[0].category, s[0].key, s[0].desc), ("Editor Keys", "/", "Command bar"));
    assert_eq!(s[64].key, "autobreaks");
    assert_eq!(s.iter().filter(|x| x.category == "Selection").count(), 7);
    assert!(s.iter().any(|x| x.desc == "Delete word \u{2190}"));
}

fn snaps(n: usize) -> Vec<Snapshot> {
    (0..n).map(|i| Snapshot { path: format!("snap{}.fountain", i), display_time: format!("t{}", i) }).collect()
}

#[test]
fn snapshots_need_a_saved_file() {
    let mut app = App::new();
    app.open_snapshots(snaps(3));
    assert!(app.snapshots.is_empty());
    assert_eq!(app.status_msg.as_deref(), Some("Save the file first to use snapshots."));
    assert!(app.command_error);
    assert_eq!(app.mode, AppMode::Normal);
    assert!(!app.trigger_snapshot());

    app.file = Some("script.fountain".to_string());
    assert!(app.trigger_snapshot());
    app.open_snapshots(snaps(0));
    assert_eq!(app.status_msg.as_deref(), Some("No snapshots found for this file."));
    app.open_snapshots(snaps(2));
    assert_eq!(app.mode, AppMode::Snapshots);
    assert_eq!(app.selected_snapshot, Some(0));
    assert_eq!(app.snapshots.len(), 2);
    assert_eq!(app.snapshots[1].path, "snap1.fountain");
}

#[test]
fn snapshot_failure_reported() {
    let mut app = App::new();
    app.snapshot_written(Err("disk full".to_string()));
    assert_eq!(app.status_msg.as_deref(), Some("Snapshot failed: disk full"));
    app.status_msg = None;
    app.snapshot_written(Ok(()));
    assert_eq!(app.status_msg, None);
}

#[test]
fn renumber_twice_same_as_once() {
    let mut app = app_with(&["INT. A - DAY", "", "EXT. B - DAY #7#", "", "INT. C - NIGHT #x1#"]);
    app.renumber_all_scenes();
    let once = app.lines.clone();
    assert_eq!(once[0], "INT. A - DAY #1#");
    assert_eq!(once[2], "EXT. B - DAY #2#");
    app.renumber_all_scenes();
    assert_eq!(app.lines, once);
    app.strip_all_scene_numbers();
    assert_eq!(app.lines[0], "INT. A - DAY");
    assert_eq!(app.lines[2], "EXT. B - DAY");
}

#[test]
fn locked_numbering_picks_free_suffixes() {
    let mut app = app_with(&["INT. A - DAY #1#", "", "INT. B - DAY", "", "INT. C - DAY", "", "INT. D - DAY #2#"]);
    app.auto_number_locked_scenes();
    assert_eq!(app.lines[2], "INT. B - DAY #1A#");
    assert_eq!(app.lines[4], "INT. C - DAY #1B#");
    assert_eq!(app.lines[6], "INT. D - DAY #2#");
}

#[test]
fn suffix_labels_skip_taken() {
    let taken = vec!["A".to_string(), "B".to_string(), "D".to_string()];
    assert_eq!(App::next_suffix_label(&taken), "C");
    let all: Vec<String> = (0..26u8).map(|i| ((b'A' + i) as char).to_string()).collect();
    assert_eq!(App::next_suffix_label(&all), "AA");
    assert_eq!(App::next_suffix_label(&vec![]), "A");
}

#[test]
fn inject_number_on_current_scene() {
    let mut app = app_with(&["INT. A - DAY", "", "Action.", "", "EXT. B - DAY"]);
    app.cursor_y = 2;
    app.inject_current_scene_number();
    assert_eq!(app.lines[0], "INT. A - DAY #1#");
    assert_eq!(app.status_msg.as_deref(), Some("Scene #1 injected"));
    app.inject_current_scene_number();
    assert_eq!(app.status_msg.as_deref(), Some("Scene already numbered"));
}

#[test]
fn undo_then_redo_returns_to_edit() {
    let mut app = app_with(&["Hello"]);
    app.cursor_x = 5;
    app.save_state(true);
    app.insert_char('!');
    assert_eq!(app.lines[0], "Hello!");
    app.undo();
    assert_eq!(app.lines[0], "Hello");
    assert_eq!(app.cursor_x, 5);
    app.redo();
    assert_eq!(app.lines[0], "Hello!");
    assert_eq!(app.cursor_x, 6);
}

#[test]
fn undo_with_empty_history_changes_nothing() {
    let mut app = app_with(&["Text"]);
    app.undo();
    assert_eq!(app.lines[0], "Text");
    app.redo();
    assert_eq!(app.lines[0], "Text");
}

#[test]
fn inject_current_number_is_untagged_injection() {
    let lines = ["INT. A - DAY", "", "Action.", "", "EXT. B - DAY #7A#", "", "More."];
    let mut a = app_with(&lines);
    let mut b = app_with(&lines);
    a.cursor_y = 6;
    b.cursor_y = 6;
    a.inject_current_scene_number();
    b.inject_scene_number_tag(None);
    assert_eq!(a.lines, b.lines);
    assert_eq!(a.status_msg, b.status_msg);
    // the custom tag is kept
    assert_eq!(a.lines[4], "EXT. B - DAY #7A#");
    assert_eq!(a.status_msg.as_deref(), Some("Scene already numbered"));
    a.cursor_y = 2;
    b.cursor_y = 2;
    a.inject_current_scene_number();
    b.inject_scene_number_tag(None);
    assert_eq!(a.lines, b.lines);
    assert_eq!(a.lines[0], "INT. A - DAY #1#");
}
