use fount::fdx::FdxExporter;
use fount::parse::parse;

#[test]
fn test_fdx_exporter() {
    let script = r#"Title: Sample Script
Author: John Doe

# Section 1
## Section 1.1

EXT. PARK - DAY

= Park scene description.

JOHN
(nervous)
Hello there! [[props: Gun]]

[[note: check the dialogue style]]
[[marker: review this part]]
[[subtext: this is subtext]]
[[tags: general info]]
"#;

    let screenplay = parse(script);
    let raw_lines = script.lines().map(|s| s.to_string()).collect::<Vec<_>>();
    let exporter = FdxExporter::new(raw_lines);
    let output = exporter.export(&screenplay);

    // Verify XML header and doctype
    assert!(output.starts_with("<?xml version=\"1.0\" encoding=\"UTF-8\" standalone=\"no\" ?>"));
    assert!(output.contains("<FinalDraft DocumentType=\"Script\" Version=\"4\">"));

    // Verify Title Page
    assert!(output.contains("<Paragraph Type=\"Title\"><Text>Sample Script</Text></Paragraph>"));
    assert!(output.contains("<Paragraph Type=\"Writer\"><Text>John Doe</Text></Paragraph>"));

    // Verify Outlines
    assert!(output.contains("<Paragraph Type=\"Outline 1\"><Text>Section 1</Text></Paragraph>"));
    assert!(output.contains("<Paragraph Type=\"Outline 2\"><Text>Section 1.1</Text></Paragraph>"));

    // Verify Heading
    assert!(output.contains("<Paragraph Type=\"Scene Heading\"><Text>EXT. PARK - DAY</Text>"));

    // Verify Synopsis
    assert!(output.contains("<Paragraph Type=\"Synopsis\"><Text>Park scene description.</Text></Paragraph>"));

    // Verify Dialogue & Parenthetical
    assert!(output.contains("<Paragraph Type=\"Character\"><Text>JOHN</Text></Paragraph>"));
    assert!(output.contains("<Paragraph Type=\"Parenthetical\"><Text>(nervous)</Text></Paragraph>"));
    assert!(output.contains("<Paragraph Type=\"Dialogue\"><Text>Hello there!</Text>"));

    // Verify tags are mapped to TagData and referenced in Dialogue
    assert!(output.contains("<Tag Id=\"TAG_PROPS_GUN\" Name=\"Gun\" CategoryId=\"CAT_PROPS\"/>"));
    assert!(output.contains("<TagCategory Id=\"CAT_PROPS\" Name=\"Props\" Color=\"#FF4040\" Style=\"Bold\"/>"));
    assert!(output.contains("<Tag Id=\"TAG_PROPS_GUN\"/>")); // reference inside paragraph

    // Verify ScriptNotes are differentiated with color and label
    assert!(output.contains("<ScriptNote Label=\"Note\" Color=\"#FFFF80\" Author=\"Fount\"><Paragraph><Text>[NOTE] check the dialogue style</Text></Paragraph></ScriptNote>"));
    assert!(output.contains("<ScriptNote Label=\"Marker\" Color=\"#80FF80\" Author=\"Fount\"><Paragraph><Text>[MARKER] review this part</Text></Paragraph></ScriptNote>"));
    assert!(output.contains("<ScriptNote Label=\"Subtext\" Color=\"#8080FF\" Author=\"Fount\"><Paragraph><Text>[SUBTEXT] this is subtext</Text></Paragraph></ScriptNote>"));
    assert!(output.contains("<ScriptNote Label=\"General Tag\" Color=\"#FF80FF\" Author=\"Fount\"><Paragraph><Text>[TAG] general info</Text></Paragraph></ScriptNote>"));
}

#[test]
fn test_fdx_exporter_toggles() {
    let script = r#"Title: Sample Script
Author: John Doe

# Section 1
## Section 1.1

EXT. PARK - DAY

= Park scene description.

JOHN
Hello there! [[props: Gun]]
"#;

    let screenplay = parse(script);
    let raw_lines = script.lines().map(|s| s.to_string()).collect::<Vec<_>>();
    
    let exporter = FdxExporter {
        raw_lines,
        include_title_page: false,
        export_sections: false,
        export_synopses: false,
        export_production_tags: false,
    };
    let output = exporter.export(&screenplay);

    // 1. Should not contain Title Page
    assert!(!output.contains("<TitlePage>"));
    assert!(!output.contains("Sample Script"));

    // 2. Should not contain Outlines
    assert!(!output.contains("Outline 1"));
    assert!(!output.contains("Outline 2"));

    // 3. Should not contain Synopsis
    assert!(!output.contains("Synopsis"));

    // 4. Should not contain TagData registry or tag references
    assert!(!output.contains("<TagData>"));
    assert!(!output.contains("TAG_PROPS_GUN"));
}
