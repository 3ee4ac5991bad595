use citestage::model::{Document, SourceKind};
use citestage::parse::parse_document;

#[test]
fn detects_top_definition() {
    let doc = Document {
        id: "target".into(),
        title: "CiteStage".into(),
        path: "README.md".into(),
        source_kind: SourceKind::Target,
        content: "# CiteStage\n\nCiteStage is a debugger for citation failures.\n\n## Install\nRun it."
            .into(),
    };
    let parsed = parse_document(&doc);
    assert!(parsed.features.has_top_definition);
    assert!(parsed.features.clarity_score as f32 / 100.0 > 0.7);
}

use citestage::parse::{heading_of, parse_documents, split_sections};

fn doc(id: &str, content: &str) -> Document {
    Document {
        id: id.into(),
        title: id.into(),
        path: "README.md".into(),
        source_kind: SourceKind::Target,
        content: content.into(),
    }
}

#[test]
fn headings_follow_the_atx_grammar() {
    let chars = |s: &str| s.chars().collect::<Vec<char>>();
    assert_eq!(heading_of(&chars("## Install  ")), Some((2, "Install".to_string())));
    assert_eq!(heading_of(&chars("###### Six")), Some((6, "Six".to_string())));
    assert_eq!(heading_of(&chars("####### Seven")), None);
    assert_eq!(heading_of(&chars("#NoSpace")), None);
    assert_eq!(heading_of(&chars("# ")), None);
    assert_eq!(heading_of(&chars("#  ")), Some((1, "".to_string())));
}

#[test]
fn sections_split_at_headings() {
    let sections = split_sections("Intro text\n# Title\nBody one\n\n## Install\nRun it.\n## Empty\n");
    let got: Vec<(String, usize, String)> = sections
        .into_iter()
        .map(|s| (s.heading, s.level, s.text))
        .collect();
    assert_eq!(
        got,
        vec![
            ("Overview".to_string(), 1, "Intro text".to_string()),
            ("Title".to_string(), 1, "Body one".to_string()),
            ("Install".to_string(), 2, "Run it.".to_string()),
        ]
    );
}

#[test]
fn blank_content_is_one_overview_section() {
    let sections = split_sections("  \n# Only heading\n");
    assert_eq!(sections.len(), 1);
    assert_eq!(sections[0].heading, "Overview");
    assert_eq!(sections[0].level, 1);
    assert_eq!(sections[0].text, "  \n# Only heading\n");
}

#[test]
fn features_count_terms_and_install_position() {
    let parsed = parse_document(&doc(
        "d",
        "# Tool\nTool helps teams. For example, a workflow.\n## Setup\nx\n## More\ny",
    ));
    let f = &parsed.features;
    assert!(f.has_top_definition);
    assert_eq!(f.max_heading_depth, 2);
    assert_eq!(f.install_section_position, Some(1));
    assert_eq!(f.use_case_term_count, 3);
    assert_eq!(f.clarity_score, 20 + 40 + 20 + 15);
    assert_eq!(parsed.summary, "tool tool helps teams for example workflow setup more");
}

#[test]
fn clarity_without_signals_is_the_floor() {
    let parsed = parse_document(&doc("d", "plain words only"));
    assert!(!parsed.features.has_top_definition);
    assert_eq!(parsed.features.install_section_position, None);
    assert_eq!(parsed.features.clarity_score, 20);
}

#[test]
fn parse_documents_keeps_order() {
    let docs = vec![doc("a", "one"), doc("b", "two")];
    let parsed = parse_documents(&docs);
    assert_eq!(parsed.len(), 2);
    assert_eq!(parsed[0].document.id, "a");
    assert_eq!(parsed[1].document.id, "b");
}
