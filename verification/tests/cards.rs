use fount::classify::LineType;
use fount::editor::App;

fn app_with(lines: &[&str]) -> App {
    let mut app = App::new();
    app.lines = lines.iter().map(|s| s.to_string()).collect();
    app.parse_document();
    app
}

fn script() -> App {
    app_with(&[
        "INT. HOUSE - DAY #1#",
        "= The house.",
        "",
        "Mary waits.",
        "",
        "EXT. GARDEN - NIGHT",
        "",
        "John digs.",
    ])
}

#[test]
fn cards_one_per_scene() {
    let app = script();
    assert_eq!(app.types[0], LineType::SceneHeading);
    let cards = app.extract_scene_cards();
    assert_eq!(cards.len(), 2);
    assert_eq!(cards[0].start_line, 0);
    assert_eq!(cards[0].end_line, 4);
    assert_eq!(cards[0].heading, "INT. HOUSE - DAY");
    assert_eq!(cards[0].scene_num.as_deref(), Some("1"));
    assert_eq!(cards[0].synopsis, "The house.");
    assert_eq!(cards[0].preview, "Mary waits.");
    assert_eq!(cards[1].start_line, 5);
    assert_eq!(cards[1].end_line, 7);
    assert_eq!(cards[1].heading, "EXT. GARDEN - NIGHT");
    assert_eq!(cards[1].scene_num, None);
    assert_eq!(cards[1].preview, "John digs.");
}

#[test]
fn cards_none_without_headings() {
    let app = app_with(&["Just action.", "", "More action."]);
    assert!(app.extract_scene_cards().is_empty());
}

#[test]
fn swap_neighbouring_cards() {
    let mut app = script();
    app.swap_cards(1, 0);
    let expected = vec![
        "EXT. GARDEN - NIGHT",
        "",
        "John digs.",
        "INT. HOUSE - DAY #1#",
        "= The house.",
        "",
        "Mary waits.",
        "",
    ];
    assert_eq!(app.lines, expected);
    assert_eq!(app.selected_card_idx, 1);
    assert!(app.dirty);
    app.undo();
    assert_eq!(app.lines[0], "INT. HOUSE - DAY #1#");
    assert_eq!(app.lines.len(), 8);
}

#[test]
fn swap_keeps_every_line() {
    let mut app = script();
    let mut before = app.lines.clone();
    app.swap_cards(0, 1);
    let mut after = app.lines.clone();
    before.sort();
    after.sort();
    assert_eq!(before, after);
}

#[test]
fn swap_same_or_missing_card_changes_nothing() {
    let mut app = script();
    let before = app.lines.clone();
    app.swap_cards(0, 0);
    app.swap_cards(0, 7);
    assert_eq!(app.lines, before);
    assert!(!app.dirty);
    assert!(app.undo_stack.is_empty());
}

#[test]
fn add_card_after_first() {
    let mut app = script();
    app.add_card(0);
    assert_eq!(app.lines.len(), 12);
    assert_eq!(app.lines[5], "");
    assert_eq!(app.lines[6], ". ");
    assert_eq!(app.lines[7], "= ");
    assert_eq!(app.lines[8], "");
    assert_eq!(app.lines[9], "EXT. GARDEN - NIGHT");
    assert_eq!(app.selected_card_idx, 1);
    assert!(app.is_card_editing);
    assert!(app.is_heading_editing);
    assert_eq!(app.undo_stack.len(), 1);
}

#[test]
fn add_card_to_script_without_scenes() {
    let mut app = app_with(&["Action."]);
    app.add_card(5);
    assert_eq!(app.lines, vec!["Action.", "", ". ", "= ", ""]);
    assert_eq!(app.selected_card_idx, 0);
}

#[test]
fn delete_card_removes_its_scene() {
    let mut app = script();
    app.delete_card(0);
    assert_eq!(app.lines, vec!["EXT. GARDEN - NIGHT", "", "John digs."]);
    assert_eq!(app.selected_card_idx, 0);
    app.delete_card(0);
    assert_eq!(app.lines, vec![""]);
    app.delete_card(3);
    assert_eq!(app.lines, vec![""]);
}

#[test]
fn update_card_replaces_heading_and_synopsis() {
    let mut app = script();
    app.update_card_content(0, "INT. BARN - DAY".to_string(), "New synopsis".to_string());
    assert_eq!(app.lines[0], ".INT. BARN - DAY");
    assert_eq!(app.lines[1], "= New synopsis");
    assert_eq!(app.lines.len(), 8);
}

#[test]
fn update_card_inserts_missing_synopsis() {
    let mut app = script();
    app.update_card_content(1, ".EXT. ROOF".to_string(), "Up high".to_string());
    assert_eq!(app.lines[5], ".EXT. ROOF");
    assert_eq!(app.lines[6], "= Up high");
    assert_eq!(app.lines.len(), 9);
}

fn three_scenes() -> App {
    app_with(&[
        "INT. ONE - DAY",
        "First.",
        "INT. TWO - DAY",
        "Second.",
        "INT. THREE - DAY",
        "Third.",
    ])
}

#[test]
fn swap_cards_that_are_not_neighbours() {
    let mut app = three_scenes();
    app.swap_cards(2, 0);
    assert_eq!(
        app.lines,
        vec!["INT. THREE - DAY", "Third.", "INT. TWO - DAY", "Second.", "INT. ONE - DAY", "First."]
    );
    assert_eq!(app.selected_card_idx, 2);
    assert_eq!(app.undo_stack.len(), 1);
}

#[test]
fn add_card_at_the_end_selects_it() {
    let mut app = three_scenes();
    app.add_card(9);
    assert_eq!(app.lines.len(), 10);
    assert_eq!(app.lines[7], ". ");
    assert_eq!(app.selected_card_idx, 3);
}

#[test]
fn swap_twice_restores_the_script() {
    let mut app = script();
    let before = app.lines.clone();
    app.swap_cards(0, 1);
    assert_ne!(app.lines, before);
    app.swap_cards(0, 1);
    assert_eq!(app.lines, before);
}
