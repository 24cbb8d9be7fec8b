use fount::paginate::{Alignment, PlanError};
use fount::pdf::PdfExporter;
use fount::rich::RichString;
use fount::screenplay::TitlePage;
use fount::titlepage::{TitleColumn, TitleSpans};

fn entries(v: &[&str]) -> Vec<RichString> {
    v.iter().map(|s| RichString::from_text(s)).collect()
}

fn page() -> TitlePage {
    TitlePage {
        title: entries(&["Big Fish"]),
        credit: entries(&["Written by"]),
        authors: entries(&["John August"]),
        source: Vec::new(),
        draft_date: entries(&["2024"]),
        contact: entries(&["a", "b"]),
        notes: entries(&["n"]),
    }
}

const SPANS: TitleSpans = TitleSpans { center: 62, left: 40, right: 20 };

fn first_lines(tp: &TitlePage) -> Vec<(String, TitleColumn, Alignment, usize, usize)> {
    let blocks = PdfExporter::new().plan_title_page(tp, &SPANS).ok().unwrap();
    blocks
        .iter()
        .map(|b| (b.text.to_plain_string(), b.column, b.align, b.top, b.lines[0].line))
        .collect()
}

#[test]
fn title_page_columns_and_lines() {
    let got = first_lines(&page());
    assert_eq!(
        got,
        vec![
            ("BIG FISH".to_string(), TitleColumn::Center, Alignment::Centered, 40, 20),
            ("Written by".to_string(), TitleColumn::Center, Alignment::Centered, 40, 22),
            ("John August".to_string(), TitleColumn::Center, Alignment::Centered, 40, 24),
            ("a".to_string(), TitleColumn::Left, Alignment::LeftToRight, 440, 20),
            ("b".to_string(), TitleColumn::Left, Alignment::LeftToRight, 440, 21),
            ("n".to_string(), TitleColumn::Left, Alignment::LeftToRight, 440, 23),
            ("2024".to_string(), TitleColumn::Right, Alignment::RightToLeft, 440, 23),
        ]
    );
}

#[test]
fn title_is_bold_and_source_leaves_a_gap() {
    let mut tp = page();
    tp.source = entries(&["Based on the novel"]);
    let blocks = PdfExporter::new().plan_title_page(&tp, &SPANS).ok().unwrap();
    assert!(blocks[0].text.elements.iter().all(|e| e.style.bold));
    assert!(!blocks[1].text.elements.iter().any(|e| e.style.bold));
    assert_eq!(blocks[3].text.to_plain_string(), "Based on the novel");
    assert_eq!(blocks[3].lines[0].line, 26);
}

#[test]
fn title_page_lower_columns_end_at_the_bottom() {
    let mut tp = page();
    tp.notes = Vec::new();
    tp.draft_date = entries(&["one two three four five six"]);
    let got = first_lines(&tp);
    // A4 leaves (842 - 553) / 12 = 24 lower lines. Contact alone: two
    // lines end at the last line (23); the date wraps to two lines of
    // twenty characters.
    assert_eq!(got[3].4, 22);
    assert_eq!(got[4].4, 23);
    let blocks = PdfExporter::new().plan_title_page(&tp, &SPANS).ok().unwrap();
    assert_eq!(blocks[5].lines.len(), 2);
    assert_eq!(blocks[5].lines[0].line, 22);
}

#[test]
fn title_page_empty_entry_is_refused() {
    let mut tp = page();
    tp.credit = entries(&[""]);
    let r = PdfExporter::new().plan_title_page(&tp, &SPANS);
    assert!(matches!(r, Err(PlanError::NoCharacter)));
}

#[test]
fn title_page_letter_has_fewer_lower_lines() {
    // Letter: (792 - 553) / 12 = 19 lower lines; the date ends at line 18.
    let mut ex = PdfExporter::new();
    ex.paper_size = fount::pdf::PaperSize::letter();
    let blocks = ex.plan_title_page(&page(), &SPANS).ok().unwrap();
    let date = blocks.iter().find(|b| b.column == TitleColumn::Right).unwrap();
    assert_eq!(date.lines[0].line, 18);
    assert_eq!(date.top, 440);
}
