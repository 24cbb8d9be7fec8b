use fount::fdx::{escape_xml, make_xml_id, note_tags, note_text, parse_line_notes, parse_line_tags, FdxExporter};
use fount::paginate::{Alignment, GlyphSpans, MarginKind, PlanError};
use fount::parse::parse;
use fount::pdf::{PaperSize, PdfExporter};
use fount::rich::RichString;
use fount::screenplay::{Dialogue, DialogueElement, Element, Screenplay, Span};

fn chars(s: &str) -> Vec<char> {
    s.chars().collect()
}

fn text(v: &[char]) -> String {
    v.iter().collect()
}

fn export(script: &str) -> String {
    let sp = parse(script);
    let raw = script.lines().map(|s| s.to_string()).collect::<Vec<_>>();
    FdxExporter::new(raw).export(&sp)
}

#[test]
fn escape_reserved_characters() {
    assert_eq!(text(&escape_xml(&chars("a<b>&\"c'"))), "a&lt;b&gt;&amp;&quot;c&apos;");
    assert_eq!(text(&escape_xml(&chars("plain"))), "plain");
}

#[test]
fn xml_ids_upper_case_letters_and_digits() {
    assert_eq!(text(&make_xml_id(&chars("red car 2"))), "RED_CAR_2");
    assert_eq!(text(&make_xml_id(&chars("ключ-1"))), "ключ_1");
}

#[test]
fn tags_of_a_line() {
    let tags = parse_line_tags(&chars("x [[Props: Gun, , Knife]] y [[note: hi]] [[sfx:boom]] [[broken"));
    let tags: Vec<(String, String)> = tags.iter().map(|(a, b)| (text(a), text(b))).collect();
    assert_eq!(
        tags,
        vec![
            ("props".to_string(), "Gun".to_string()),
            ("props".to_string(), "Knife".to_string()),
            ("sfx".to_string(), "boom".to_string()),
        ]
    );
    let notes = parse_line_notes(&chars("[[note: hi ]] [[Marker: here]] [[props: x]] [[nokey]]"));
    let notes: Vec<(String, String)> = notes.iter().map(|(a, b)| (text(a), text(b))).collect();
    assert_eq!(
        notes,
        vec![("note".to_string(), "hi".to_string()), ("marker".to_string(), "here".to_string())]
    );
}

#[test]
fn tag_registry_sorted_and_once() {
    let script = "INT. ROOM - DAY\n\nBob takes it. [[props: Lamp]] [[cast: Bob]]\n\nHe leaves. [[props: Chair]] [[props: Lamp]]\n";
    let out = export(script);
    let cast = out.find("<TagCategory Id=\"CAT_CAST\" Name=\"Cast Members\"").unwrap();
    let props = out.find("<TagCategory Id=\"CAT_PROPS\" Name=\"Props\"").unwrap();
    assert!(cast < props);
    assert_eq!(out.matches("<Tag Id=\"TAG_PROPS_LAMP\" Name=").count(), 1);
    let bob = out.find("<Tag Id=\"TAG_CAST_BOB\" Name=").unwrap();
    let chair = out.find("<Tag Id=\"TAG_PROPS_CHAIR\" Name=").unwrap();
    let lamp = out.find("<Tag Id=\"TAG_PROPS_LAMP\" Name=").unwrap();
    assert!(bob < chair && chair < lamp);
}

#[test]
fn fdx_document_frame_and_scene_number() {
    let out = export("INT. LAB - NIGHT #12A#\n\nA *bold* move.\n");
    assert!(out.starts_with("<?xml version=\"1.0\" encoding=\"UTF-8\" standalone=\"no\" ?>\n"));
    assert!(out.ends_with("</FinalDraft>\n"));
    assert!(out.contains("<Paragraph Type=\"Scene Heading\" Number=\"12A\"><Text>INT. LAB - NIGHT</Text></Paragraph>"));
    assert!(out.contains("<Paragraph Type=\"Action\"><Text>A </Text><Text Style=\"Italic\">bold</Text><Text> move.</Text></Paragraph>"));
    assert!(!out.contains("<TitlePage>"));
    assert!(!out.contains("<TagData>"));
}

#[test]
fn fdx_page_break_and_transition() {
    let out = export("INT. A - DAY\n\n===\n\nCUT TO:\n");
    assert!(out.contains("<Paragraph Type=\"New Page\"/>"));
    assert!(out.contains("<Paragraph Type=\"Transition\"><Text>CUT TO:</Text></Paragraph>"));
}

#[test]
fn fdx_dual_dialogue_is_two_documents() {
    let script = "INT. A - DAY\n\nBOB\nHi.\n\nALICE ^\nHello.\n";
    let sp = parse(script);
    assert!(matches!(sp.elements[1].inner, Element::DualDialogue(..)));
    let out = export(script);
    assert_eq!(out.matches("<FinalDraft DocumentType=\"Script\" Version=\"4\">").count(), 3);
    assert!(out.contains("<Paragraph Type=\"Character\"><Text>BOB</Text></Paragraph>"));
    assert!(out.contains("<Paragraph Type=\"Character\"><Text>ALICE</Text></Paragraph>"));
}

#[test]
fn parse_title_page_and_speech() {
    let sp = parse("Title: My Film\nAuthors: Ann\nDraft date: today\n\nBOB (V.O.)\n(softly)\nHello. [[note: x]]\n");
    let tp = sp.titlepage.as_ref().unwrap();
    assert_eq!(tp.title[0].to_plain_string(), "My Film");
    assert_eq!(tp.authors[0].to_plain_string(), "Ann");
    assert_eq!(tp.draft_date[0].to_plain_string(), "today");
    assert_eq!(sp.elements.len(), 1);
    assert_eq!(sp.elements[0].start_line, 5);
    assert_eq!(sp.elements[0].end_line, 7);
    match &sp.elements[0].inner {
        Element::Dialogue(d) => {
            assert_eq!(d.character.to_plain_string(), "BOB");
            assert_eq!(d.extension.as_ref().unwrap().to_plain_string(), "V.O.");
            assert_eq!(d.elements.len(), 2);
            match &d.elements[1] {
                DialogueElement::Line(r) => assert_eq!(r.to_plain_string(), "Hello."),
                _ => panic!("expected a line"),
            }
        }
        _ => panic!("expected a speech"),
    }
}

fn spans(n: usize) -> GlyphSpans {
    GlyphSpans {
        heading: n,
        action: n,
        character: n,
        parenthetical: n,
        dialogue_line: n,
        dual_left_character: n,
        dual_left_parenthetical: n,
        dual_left_line: n,
        dual_right_character: n,
        dual_right_parenthetical: n,
        dual_right_line: n,
        lyrics: n,
        transition: n,
        centered: n,
        synopsis: n,
        page_number: n,
        number_left: n,
        number_right: n,
    }
}

fn rich(s: &str) -> RichString {
    RichString::from_text(s)
}

#[test]
fn plan_single_page() {
    let sp = parse("INT. A - DAY #3#\n\nShe runs.\n");
    let plan = PdfExporter::new().plan_pages(&sp, &spans(60), 100).unwrap();
    assert_eq!(plan.pages, 1);
    assert_eq!(plan.outline.len(), 1);
    assert_eq!(plan.outline[0].title, "INT. A - DAY");
    assert_eq!(plan.outline[0].line, 0);
    // number, heading, action
    assert_eq!(plan.blocks.len(), 3);
    assert_eq!(plan.blocks[0].margin, MarginKind::NumberLeft);
    assert_eq!(plan.blocks[1].margin, MarginKind::Heading);
    assert_eq!(plan.blocks[1].lines[0].line, 0);
    assert_eq!(plan.blocks[2].margin, MarginKind::Action);
    assert_eq!(plan.blocks[2].align, Alignment::LeftToRight);
    assert_eq!(plan.blocks[2].lines[0].line, 2);
}

#[test]
fn plan_long_speech_continues_with_more_and_contd() {
    let mut parts = Vec::new();
    for _ in 0..80 {
        parts.push(DialogueElement::Line(rich("Words.")));
    }
    let d = Dialogue { character: rich("BOB"), extension: None, elements: parts };
    let sp = Screenplay::new(None, vec![Span { start_line: 1, end_line: 81, inner: Element::Dialogue(d) }]);
    let plan = PdfExporter::new().plan_pages(&sp, &spans(30), 100).unwrap();
    assert_eq!(plan.pages, 2);
    let names: Vec<String> = plan
        .blocks
        .iter()
        .filter(|b| b.margin == MarginKind::Character)
        .map(|b| b.text.to_plain_string())
        .collect();
    assert_eq!(names, vec!["BOB", "BOB (CONT'D)"]);
    // (MORE) sits under the last line of the first page, centred over the
    // dialogue column: A4 holds 60 lines, the cue takes line 0.
    let more = plan.blocks.iter().find(|b| b.text.to_plain_string() == "(MORE)").unwrap();
    assert_eq!(more.page, 0);
    assert_eq!(more.margin, MarginKind::DialogueLine);
    assert_eq!(more.align, Alignment::Centered);
    assert_eq!(more.lines[0].line, 60);
    // the second page carries its page number
    assert!(plan.blocks.iter().any(|b| b.page == 1 && b.margin == MarginKind::PageNumber && b.text.to_plain_string() == "2."));
}

#[test]
fn plan_refuses_empty_text_and_page_limit() {
    let sp = Screenplay::new(None, vec![Span { start_line: 1, end_line: 1, inner: Element::Action(rich("")) }]);
    assert!(matches!(PdfExporter::new().plan_pages(&sp, &spans(30), 100), Err(PlanError::NoCharacter)));
    let sp = parse("Action one.\n\n===\n\nAction two.\n");
    assert!(matches!(PdfExporter::new().plan_pages(&sp, &spans(30), 1), Err(PlanError::TooManyPages)));
    assert_eq!(PdfExporter::new().plan_pages(&sp, &spans(30), 2).unwrap().pages, 2);
}

#[test]
fn plan_sections_upper_case_when_exported() {
    let sp = parse("# Act one\n\nAction.\n");
    let mut ex = PdfExporter::new();
    let plan = ex.plan_pages(&sp, &spans(30), 10).unwrap();
    assert!(plan.blocks.iter().all(|b| b.text.to_plain_string() != "ACT ONE"));
    ex.sections = true;
    let plan = ex.plan_pages(&sp, &spans(30), 10).unwrap();
    let b = plan.blocks.iter().find(|b| b.text.to_plain_string() == "ACT ONE").unwrap();
    assert!(b.text.elements.iter().all(|e| e.is_bold()));
}

#[test]
fn fdx_file_extension() {
    assert_eq!(FdxExporter::new(vec![]).file_extension(), "fdx");
    assert_eq!(PdfExporter::new().file_extension(), "pdf");
}

fn actions_then_heading(n: usize) -> Screenplay {
    let mut v = Vec::new();
    for i in 0..n {
        v.push(Span { start_line: i + 1, end_line: i + 1, inner: Element::Action(rich("Step.")) });
    }
    v.push(Span {
        start_line: n + 1,
        end_line: n + 1,
        inner: Element::Heading { slug: rich("INT. HALL - NIGHT"), number: None },
    });
    Screenplay::new(None, v)
}

#[test]
fn plan_heading_never_ends_a_page() {
    // A4 holds 60 lines; each action takes a line and a blank one.
    let plan = PdfExporter::new().plan_pages(&actions_then_heading(28), &spans(30), 10).unwrap();
    let h = plan.blocks.iter().find(|b| b.margin == MarginKind::Heading).unwrap();
    assert_eq!((h.page, h.lines[0].line), (0, 56));
    let plan = PdfExporter::new().plan_pages(&actions_then_heading(29), &spans(30), 10).unwrap();
    let h = plan.blocks.iter().find(|b| b.margin == MarginKind::Heading).unwrap();
    assert_eq!((h.page, h.lines[0].line), (1, 0));
}

#[test]
fn page_margins_and_lines() {
    let a4 = PaperSize::a4();
    let letter = PaperSize::letter();
    assert_eq!(a4.top_margin(), 40);
    assert_eq!(letter.top_margin(), 40);
    assert_eq!(a4.bottom_margin(), 60);
    assert_eq!(letter.bottom_margin(), 50);
    // (842 - 100) / 12 - 1 and (792 - 90) / 12 - 1
    assert_eq!(a4.max_lines_per_page(), 60);
    assert_eq!(letter.max_lines_per_page(), 57);
}

/// Actions filling the page down to line `2 * n - 2`, then a speech.
fn actions_then_speech(n: usize, parts: Vec<DialogueElement>) -> Screenplay {
    let mut v = Vec::new();
    for i in 0..n {
        v.push(Span { start_line: i + 1, end_line: i + 1, inner: Element::Action(rich("Step.")) });
    }
    let d = Dialogue { character: rich("BOB"), extension: None, elements: parts };
    v.push(Span { start_line: n + 1, end_line: n + 1, inner: Element::Dialogue(d) });
    Screenplay::new(None, v)
}

fn lines_of_speech(k: usize) -> Vec<DialogueElement> {
    (0..k).map(|_| DialogueElement::Line(rich("Words."))).collect()
}

fn body_blocks(plan: &fount::paginate::Plan) -> Vec<(usize, String, usize)> {
    plan.blocks
        .iter()
        .filter(|b| b.margin != MarginKind::PageNumber && b.margin != MarginKind::Action)
        .map(|b| (b.page, b.text.to_plain_string(), b.lines[0].line))
        .collect()
}

#[test]
fn plan_one_line_speech_moves_whole() {
    // 28 actions end at line 54; the cue goes at 56 and leaves three lines,
    // too few for a parenthetical and three lines of dialogue, which may
    // not break (two lines must stay on each side).
    let mut parts = vec![DialogueElement::Parenthetical(rich("(quietly)"))];
    parts.extend(lines_of_speech(3));
    let plan = PdfExporter::new().plan_pages(&actions_then_speech(28, parts), &spans(30), 10).unwrap();
    assert_eq!(plan.pages, 2);
    let got = body_blocks(&plan);
    assert_eq!(got[0], (1, "BOB".to_string(), 0));
    assert!(got.iter().all(|b| b.1 != "(MORE)"));
    // a single line of dialogue under a parenthetical of three lines or
    // more never breaks, though the page has three lines for it
    let parts = vec![
        DialogueElement::Parenthetical(rich(
            "(quietly, almost to himself, while the rain keeps on falling on the old tin roof)",
        )),
        DialogueElement::Line(rich("Words.")),
    ];
    let plan = PdfExporter::new().plan_pages(&actions_then_speech(28, parts), &spans(30), 10).unwrap();
    let got = body_blocks(&plan);
    assert_eq!(got[0], (1, "BOB".to_string(), 0));
    assert!(got.iter().all(|b| b.1 != "(MORE)"));
}

#[test]
fn plan_speech_breaks_leaving_two_lines_each_side() {
    // Cue at 56, three lines free: a parenthetical and two lines stay,
    // two lines go on under (CONT'D).
    let mut parts = vec![DialogueElement::Parenthetical(rich("(quietly)"))];
    parts.extend(lines_of_speech(4));
    let plan = PdfExporter::new().plan_pages(&actions_then_speech(28, parts), &spans(30), 10).unwrap();
    let got = body_blocks(&plan);
    assert_eq!(
        got,
        vec![
            (0, "BOB".to_string(), 56),
            (0, "(quietly)".to_string(), 57),
            (0, "Words.".to_string(), 58),
            (0, "Words.".to_string(), 59),
            (0, "(MORE)".to_string(), 60),
            (1, "BOB (CONT'D)".to_string(), 0),
            (1, "Words.".to_string(), 1),
            (1, "Words.".to_string(), 2),
        ]
    );
    // Cue at 54, five lines free for six lines of dialogue: the break comes
    // after four, so that two go on.
    let plan = PdfExporter::new().plan_pages(&actions_then_speech(27, lines_of_speech(6)), &spans(30), 10).unwrap();
    let got = body_blocks(&plan);
    let more = got.iter().position(|b| b.1 == "(MORE)").unwrap();
    assert_eq!(more, 5);
    assert_eq!(got[more], (0, "(MORE)".to_string(), 59));
    assert_eq!(got.len() - more - 2, 2);
}

#[test]
fn note_keys_sort_into_tags_and_notes() {
    let tags = note_tags(&chars("props"), &chars(" Gun, , Knife "));
    let tags: Vec<(String, String)> = tags.iter().map(|(a, b)| (text(a), text(b))).collect();
    assert_eq!(tags, vec![("props".to_string(), "Gun".to_string()), ("props".to_string(), "Knife".to_string())]);
    // script notes and scene settings make no tags
    for k in ["note", "marker", "subtext", "tags", "scenetype", "scenestatus", "sceneclr", "synopsis"] {
        assert!(note_tags(&chars(k), &chars("a, b")).is_empty());
    }
    let (k, v) = note_text(&chars("subtext"), &chars("  she lies  ")).unwrap();
    assert_eq!((text(&k), text(&v)), ("subtext".to_string(), "she lies".to_string()));
    assert!(note_text(&chars("props"), &chars("x")).is_none());
    assert!(note_text(&chars("sceneclr"), &chars("red")).is_none());
}

#[test]
fn plan_unbreakable_speech_longer_than_a_page_fills_it() {
    // one line of dialogue under a parenthetical of some seventy lines: it
    // allows no break, but from the top of a page it is set anyway
    let paren = format!("({})", "word ".repeat(400).trim_end());
    let parts = vec![DialogueElement::Parenthetical(rich(&paren)), DialogueElement::Line(rich("Words."))];
    let plan = PdfExporter::new().plan_pages(&actions_then_speech(0, parts), &spans(30), 10).unwrap();
    let got = body_blocks(&plan);
    assert_eq!(got[0], (0, "BOB".to_string(), 0));
    assert!(got.contains(&(0, "(MORE)".to_string(), 60)));
    assert!(got.iter().any(|b| b.0 == 1 && b.1 == "BOB (CONT'D)"));
}

#[test]
fn plan_page_limit_only_caps() {
    let sp = actions_then_speech(27, lines_of_speech(6));
    let a = PdfExporter::new().plan_pages(&sp, &spans(30), 2).unwrap();
    let b = PdfExporter::new().plan_pages(&sp, &spans(30), 500).unwrap();
    assert_eq!(a.pages, b.pages);
    assert_eq!(body_blocks(&a), body_blocks(&b));
    assert!(matches!(PdfExporter::new().plan_pages(&sp, &spans(30), 1), Err(PlanError::TooManyPages)));
}
