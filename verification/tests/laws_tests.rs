use citestage::generate::synthesize;
use citestage::model::{Chunk, ScoredChunk, SourceKind};
use citestage::rank::rank_results;

fn scored(doc: &str, score: u32) -> ScoredChunk {
    ScoredChunk {
        chunk: Chunk {
            id: doc.into(),
            document_id: doc.into(),
            source_kind: SourceKind::Target,
            title: doc.into(),
            heading: "h".into(),
            text: "words here".into(),
            token_count: 2,
        },
        score,
        rank: 99,
        evidence: doc.into(),
    }
}

#[test]
fn ranked_results_are_numbered_and_non_increasing() {
    let items: Vec<ScoredChunk> = [3u32, 8, 8, 1, 5, 8].iter().enumerate()
        .map(|(i, s)| scored(&format!("d{}", i), *s))
        .collect();
    let ranked = rank_results(items, 10);
    assert_eq!(ranked.len(), 6);
    for (k, item) in ranked.iter().enumerate() {
        assert_eq!(item.rank, k + 1);
    }
    for pair in ranked.windows(2) {
        assert!(pair[0].score >= pair[1].score);
    }
    let order: Vec<String> = ranked.iter().map(|s| s.chunk.id.clone()).collect();
    assert_eq!(order, vec!["d1", "d2", "d5", "d4", "d0", "d3"]);
}

#[test]
fn cited_sources_never_repeat() {
    let chunks = vec![scored("a", 0), scored("a", 0), scored("b", 0), scored("a", 0)];
    let answer = synthesize("q", &chunks, 10);
    assert_eq!(answer.cited_sources, vec!["a", "b"]);
}

use citestage::model::{Document};
use citestage::parse::{parse_document, split_sections};

#[test]
fn sections_have_levels_and_text() {
    let sections = split_sections("# A\nx\n###### F\ny\n####### Not a heading\n## B\n\n");
    for s in &sections {
        assert!((1..=6).contains(&s.level));
        assert!(!s.text.is_empty());
    }
    assert_eq!(sections.len(), 2);
    assert_eq!(sections[1].text, "y\n####### Not a heading");
}

#[test]
fn clarity_stays_within_bounds() {
    let rich = "# X\nX is a tool that helps. Use case: example workflow when to use it for teams.\n## Install\nz";
    for content in ["", "plain", rich] {
        let parsed = parse_document(&Document {
            id: "d".into(),
            title: "d".into(),
            path: "p".into(),
            source_kind: SourceKind::Target,
            content: content.into(),
        });
        assert!(parsed.features.clarity_score >= 20 && parsed.features.clarity_score <= 100);
    }
}
