use citestage::index::{chunks_for_document, chunks_from_parsed, Bm25Index};
use citestage::model::{Document, ParsedDocument, Section, SourceKind, StructuralFeatures};

fn parsed(id: &str, content: &str, sections: Vec<(&str, &str)>) -> ParsedDocument {
    ParsedDocument {
        document: Document {
            id: id.into(),
            title: format!("{} title", id),
            path: "README.md".into(),
            source_kind: SourceKind::Competitor,
            content: content.into(),
        },
        sections: sections
            .into_iter()
            .map(|(h, t)| Section { heading: h.into(), level: 1, text: t.into() })
            .collect(),
        summary: String::new(),
        features: StructuralFeatures {
            has_top_definition: false,
            max_heading_depth: 1,
            install_section_position: None,
            use_case_term_count: 0,
            clarity_score: 20,
        },
    }
}

#[test]
fn long_sections_split_into_windows_of_ninety() {
    let text: Vec<String> = (0..200).map(|i| format!("w{}", i)).collect();
    let text = text.join(" ");
    let p = parsed("doc", "", vec![("Empty", "- ,"), ("Body", &text)]);
    let chunks = chunks_for_document(&p);
    assert_eq!(chunks.len(), 3);
    assert_eq!(chunks[0].id, "doc-1-0");
    assert_eq!(chunks[1].id, "doc-1-1");
    assert_eq!(chunks[2].id, "doc-1-2");
    assert_eq!(
        chunks.iter().map(|c| c.token_count).collect::<Vec<_>>(),
        vec![90, 90, 20]
    );
    let rejoined: Vec<String> = chunks.iter().map(|c| c.text.clone()).collect();
    assert_eq!(rejoined.join(" "), text);
    assert_eq!(chunks[0].heading, "Body");
    assert_eq!(chunks[0].title, "doc title");
    assert_eq!(chunks[0].source_kind, SourceKind::Competitor);
}

#[test]
fn tokenless_document_falls_back_to_overview_chunk() {
    let p = parsed("doc", "Some Content Here", vec![("Only", "a b c")]);
    let chunks = chunks_for_document(&p);
    assert_eq!(chunks.len(), 1);
    assert_eq!(chunks[0].id, "doc-0-0");
    assert_eq!(chunks[0].heading, "Overview");
    assert_eq!(chunks[0].text, "some content here");
    assert_eq!(chunks[0].token_count, 3);
}

#[test]
fn chunks_from_parsed_concatenates_documents() {
    let a = parsed("a", "", vec![("H", "alpha beta")]);
    let b = parsed("b", "", vec![("H", "gamma"), ("I", "delta")]);
    let chunks = chunks_from_parsed(&vec![a, b]);
    let ids: Vec<String> = chunks.iter().map(|c| c.id.clone()).collect();
    assert_eq!(ids, vec!["a-0-0", "b-0-0", "b-1-0"]);
}

#[test]
fn index_counts_terms_and_documents() {
    let a = parsed("a", "", vec![("H", "citation debugger citation")]);
    let b = parsed("b", "", vec![("H", "debugger pipeline")]);
    let index = Bm25Index::new(chunks_from_parsed(&vec![a, b]));
    assert!(!index.is_empty());
    assert_eq!(index.chunks().len(), 2);
    assert_eq!(index.term_frequency(0, "citation"), Some(2));
    assert_eq!(index.term_frequency(1, "citation"), None);
    assert_eq!(index.document_frequency("debugger"), 2);
    assert_eq!(index.document_frequency("citation"), 1);
    assert_eq!(index.document_frequency("absent"), 0);
    assert_eq!(index.token_total(), 5);
}

#[test]
fn empty_index() {
    let index = Bm25Index::new(Vec::new());
    assert!(index.is_empty());
    assert_eq!(index.token_total(), 0);
}
