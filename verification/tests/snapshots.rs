use fount::editor::{App, AppMode};
use fount::snapshots::Snapshot;

fn app_with(lines: &[&str]) -> App {
    let mut app = App::new();
    app.lines = lines.iter().map(|s| s.to_string()).collect();
    app.parse_document();
    app.snapshots = vec![
        Snapshot { path: "a.fountain".to_string(), display_time: "2024-05-01 10:00".to_string() },
        Snapshot { path: "b.fountain".to_string(), display_time: "yesterday".to_string() },
    ];
    app
}

fn ok(s: &str) -> Result<String, String> {
    Ok(s.to_string())
}

#[test]
fn restore_snapshot_in_place() {
    let mut app = app_with(&["Old text.", "More."]);
    app.mode = AppMode::Snapshots;
    app.cursor_y = 1;
    let r = app.restore_snapshot(0, ok("INT. ROOM - DAY\r\n\nNew text.\n"), false);
    assert_eq!(r, Ok(()));
    assert_eq!(app.lines, vec!["INT. ROOM - DAY", "", "New text."]);
    assert_eq!((app.cursor_y, app.cursor_x), (0, 0));
    assert!(app.dirty);
    assert_eq!(app.mode, AppMode::Normal);
    assert_eq!(app.status_msg.as_deref(), Some("Replaced current buffer with snapshot from 2024-05-01 10:00"));
    app.undo();
    assert_eq!(app.lines, vec!["Old text.", "More."]);
}

#[test]
fn restore_empty_snapshot_gives_one_line() {
    let mut app = app_with(&["Old text."]);
    app.restore_snapshot(1, ok(""), false).unwrap();
    assert_eq!(app.lines, vec![""]);
}

#[test]
fn restore_snapshot_in_new_buffer() {
    let mut app = app_with(&["Old text."]);
    app.file = Some("/home/writer/scripts/heist.fountain".to_string());
    app.mode = AppMode::Snapshots;
    app.cursor_x = 3;
    let r = app.restore_snapshot(1, ok("A\nB"), true);
    assert_eq!(r, Ok(()));
    // the snapshot is the new current buffer, changed, cursor at its start
    assert_eq!(app.lines, vec!["A", "B"]);
    assert!(app.dirty);
    assert_eq!((app.cursor_y, app.cursor_x), (0, 0));
    assert_eq!(app.file, None);
    assert_eq!(app.buffers.len(), 2);
    assert_eq!(app.current_buffer, 1);
    assert!(app.has_multiple_buffers);
    // the old buffer waits in the list
    assert_eq!(app.buffers[0].lines, vec!["Old text."]);
    assert_eq!(app.buffers[0].cursor_x, 3);
    assert_eq!(app.buffers[0].file.as_deref(), Some("/home/writer/scripts/heist.fountain"));
    assert_eq!(app.mode, AppMode::Normal);
    assert_eq!(
        app.status_msg.as_deref(),
        Some("Opened snapshot of heist.fountain from yesterday in a new buffer")
    );
    let mut app = app_with(&["x"]);
    app.restore_snapshot(0, ok("A"), true).unwrap();
    assert_eq!(app.status_msg.as_deref(), Some("Opened snapshot of unnamed from 2024-05-01 10:00 in a new buffer"));
    // back to the first buffer
    app.switch_buffer(0);
    assert_eq!(app.lines, vec!["x"]);
    assert_eq!(app.buffers[1].lines, vec!["A"]);
}

#[test]
fn restore_missing_or_unreadable_snapshot_changes_nothing() {
    let mut app = app_with(&["Old text."]);
    assert_eq!(app.restore_snapshot(5, ok("A"), false), Ok(()));
    assert_eq!(app.lines, vec!["Old text."]);
    assert_eq!(app.restore_snapshot(0, Err("no such file".to_string()), true), Err("no such file".to_string()));
    assert_eq!(app.lines, vec!["Old text."]);
    assert_eq!(app.buffers.len(), 1);
    assert!(app.status_msg.is_none());
}
