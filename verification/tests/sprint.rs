use fount::editor::App;
use fount::sprint::{Sprint, SprintResult};

const MINUTE: u128 = 60_000_000_000;

fn app_with_lines(n: usize) -> App {
    let mut app = App::new();
    app.lines = (0..n).map(|i| format!("line {}", i)).collect();
    app
}

#[test]
fn sprint_ends_when_its_time_is_up() {
    let mut app = app_with_lines(12);
    app.file = Some("/home/writer/My Script.fountain".to_string());
    app.active_sprint = Some(Sprint { duration_nanos: 25 * MINUTE, start_words: 100, start_lines: 10 });
    let r = app.check_goal(25 * MINUTE, 250, 0);
    assert_eq!(
        r,
        Some(SprintResult { project_name: "My Script".to_string(), duration_mins: 25, words: 150, lines: 2 })
    );
    assert_eq!(app.active_sprint, None);
    assert_eq!(app.status_msg.as_deref(), Some("Sprint finished! You wrote 150 words and 2 lines."));
    assert!(app.flash);
}

#[test]
fn sprint_counts_never_go_below_zero() {
    let mut app = app_with_lines(3);
    app.active_sprint = Some(Sprint { duration_nanos: MINUTE + 5, start_words: 100, start_lines: 10 });
    let r = app.check_goal(2 * MINUTE, 40, 0);
    assert_eq!(
        r,
        Some(SprintResult { project_name: "unnamed".to_string(), duration_mins: 1, words: 0, lines: 0 })
    );
    assert_eq!(app.status_msg.as_deref(), Some("Sprint finished! You wrote 0 words and 0 lines."));
}

#[test]
fn sprint_still_running() {
    let mut app = app_with_lines(3);
    let sp = Sprint { duration_nanos: 10 * MINUTE, start_words: 0, start_lines: 0 };
    app.active_sprint = Some(sp);
    assert_eq!(app.check_goal(10 * MINUTE - 1, 40, 0), None);
    assert_eq!(app.active_sprint, Some(sp));
    assert_eq!(app.status_msg, None);
}

#[test]
fn sprint_flash_ends_after_its_time() {
    let mut app = app_with_lines(1);
    app.flash = true;
    assert_eq!(app.check_goal(0, 0, 200_000_000), None);
    assert!(app.flash);
    app.check_goal(0, 0, 200_000_001);
    assert!(!app.flash);
}
