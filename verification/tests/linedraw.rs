use fount::linedraw::{line_draw, FontFace};
use fount::paginate::PlacedLine;
use fount::pdf::{BreakPoint, BreakType};
use fount::rich::{RichElement, RichString, Style};

fn style(bold: bool, underline: bool) -> Style {
    Style { bold, italic: false, underline, sans: false }
}

fn text() -> RichString {
    RichString {
        elements: vec![
            RichElement { text: "Hello ".to_string(), style: style(false, false) },
            RichElement { text: String::new(), style: style(false, true) },
            RichElement { text: "World".to_string(), style: style(true, true) },
        ],
    }
}

#[test]
fn line_draw_splits_at_runs() {
    let line = PlacedLine { line: 0, start: 3, end: Some(BreakPoint { index: 8, break_type: BreakType::NewLine }) };
    let d = line_draw(&text(), &line, false);
    assert_eq!(d.length, 5);
    assert!(!d.hyphen);
    assert_eq!(d.segments.len(), 2);
    assert_eq!(d.segments[0].text, "lo ");
    assert_eq!(d.segments[0].column, 0);
    assert_eq!(d.segments[0].face, FontFace::Regular);
    assert!(!d.segments[0].underline);
    assert_eq!(d.segments[1].text, "Wo");
    assert_eq!(d.segments[1].column, 3);
    assert_eq!(d.segments[1].face, FontFace::Bold);
    assert!(d.segments[1].underline);
}

#[test]
fn line_draw_hyphen_and_sans() {
    let line = PlacedLine { line: 4, start: 6, end: Some(BreakPoint { index: 9, break_type: BreakType::BreakWord }) };
    let d = line_draw(&text(), &line, true);
    assert!(d.hyphen);
    assert_eq!(d.segments.len(), 1);
    assert_eq!(d.segments[0].text, "Wor");
    assert_eq!(d.segments[0].face, FontFace::SansBold);
    let last = PlacedLine { line: 5, start: 9, end: None };
    let d = line_draw(&text(), &last, false);
    assert_eq!(d.length, 2);
    assert_eq!(d.segments[0].text, "ld");
    assert!(!d.hyphen);
}
