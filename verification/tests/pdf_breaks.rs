use fount::pdf::{break_points, BreakPoint, BreakType};
use fount::rich::RichString;

#[test]
fn breaks_simple() {
    let mut rs = RichString::new();
    rs.push_str("hello world");

    let breakpoints = break_points(&rs, 6);
    let correct = vec![BreakPoint {
        index: 6,
        break_type: BreakType::NewLine,
    }];

    assert_eq!(breakpoints, correct);
}

#[test]
fn breaks_simple_with_newline() {
    let mut rs = RichString::new();
    rs.push_str("hello\nworld");

    let breakpoints = break_points(&rs, 100);
    let correct = vec![BreakPoint {
        index: 5,
        break_type: BreakType::NewLine,
    }];

    assert_eq!(breakpoints, correct);
}

#[test]
fn breaks_simple_breakword() {
    let mut rs = RichString::new();
    rs.push_str("helloworld");

    let breakpoints = break_points(&rs, 6);
    let correct = vec![BreakPoint {
        index: 5,
        break_type: BreakType::BreakWord,
    }];

    assert_eq!(breakpoints, correct);
}

#[test]
fn breaks_simple_utilizing_hyphen() {
    let mut rs = RichString::new();
    rs.push_str("hello-world");

    let breakpoints = break_points(&rs, 7);
    let correct = vec![BreakPoint {
        index: 6,
        break_type: BreakType::NewLine,
    }];

    assert_eq!(breakpoints, correct);
}

#[test]
fn breaks_rich() {
    let mut rs = RichString::new();
    rs.push_str("he**ll**o wor*ld*");

    let breakpoints = break_points(&rs, 6);
    let correct = vec![BreakPoint {
        index: 6,
        break_type: BreakType::NewLine,
    }];

    assert_eq!(breakpoints, correct);
}

#[test]
fn breaks_rich_longer() {
    let mut rs = RichString::new();
    rs.push_str("Bosse går till **affären** och köper lite mjölk, vilket han tycker är väldigt gott att äta.");

    let breakpoints = break_points(&rs, 60);
    let correct = vec![BreakPoint {
        index: 56,
        break_type: BreakType::NewLine,
    }];

    assert_eq!(breakpoints, correct);
}

#[test]
fn short_line_is_not_broken() {
    let mut rs = RichString::new();
    rs.push_str("hello world");
    assert!(break_points(&rs, 12).is_empty());
    // eleven characters fill a line of eleven: the line breaks
    assert!(!break_points(&rs, 11).is_empty());
}

#[test]
fn breaks_fall_after_spaces_or_inside_words() {
    let mut rs = RichString::new();
    rs.push_str("a well-known fact about extraordinarily long words");
    let s: Vec<char> = rs.to_plain_string().chars().collect();
    for bp in break_points(&rs, 8) {
        match bp.break_type {
            BreakType::BreakWord => assert!(!s[bp.index].is_whitespace() && s[bp.index] != '-'),
            BreakType::NewLine => {
                assert!(s[bp.index] == '\n' || s[bp.index - 1].is_whitespace() || s[bp.index - 1] == '-')
            }
        }
    }
}
