use citestage::model::{
    Chunk, Document, ParsedDocument, ScoredChunk, SourceKind, StageStatus, StructuralFeatures,
};
use citestage::rank::{
    clarity_of, overlap_count, query_term_set, rank_of, rank_results, rerank_stage,
    retrieval_stage,
};

fn scored(doc: &str, score: u32, rank: usize) -> ScoredChunk {
    ScoredChunk {
        chunk: Chunk {
            id: format!("{}-0-0", doc),
            document_id: doc.into(),
            source_kind: SourceKind::Competitor,
            title: doc.into(),
            heading: "Overview".into(),
            text: "some text".into(),
            token_count: 2,
        },
        score,
        rank,
        evidence: format!("{} scored", doc),
    }
}

#[test]
fn ranking_is_stable_descending_and_truncated() {
    let items = vec![
        scored("a", 5, 0),
        scored("b", 9, 0),
        scored("c", 5, 0),
        scored("d", 7, 0),
    ];
    let ranked = rank_results(items, 3);
    let got: Vec<(String, usize)> = ranked
        .iter()
        .map(|s| (s.chunk.document_id.clone(), s.rank))
        .collect();
    assert_eq!(
        got,
        vec![("b".to_string(), 1), ("d".to_string(), 2), ("a".to_string(), 3)]
    );
}

#[test]
fn ranking_with_zero_top_k_is_empty() {
    assert!(rank_results(vec![scored("a", 1, 0)], 0).is_empty());
}

#[test]
fn rank_of_finds_first_target_chunk() {
    let items = vec![scored("x", 0, 1), scored("t", 0, 2), scored("t", 0, 3)];
    assert_eq!(rank_of(&items, "t"), Some(2));
    assert_eq!(rank_of(&items, "missing"), None);
}

#[test]
fn retrieval_stage_statuses() {
    let top = vec![scored("x", 0, 1), scored("t", 0, 3)];
    let r = retrieval_stage(&top, "t");
    assert_eq!(r.stage, "retrieve");
    assert_eq!(r.status, StageStatus::Pass);
    assert_eq!(r.target_rank, Some(3));
    assert!(r.target_present);
    assert_eq!(r.evidence, vec!["target chunk retrieved at rank 3"]);

    let low = vec![scored("t", 0, 4)];
    assert_eq!(retrieval_stage(&low, "t").status, StageStatus::Partial);

    let none = retrieval_stage(&low, "other");
    assert_eq!(none.status, StageStatus::Fail);
    assert!(!none.target_present);
    assert_eq!(none.evidence, vec!["target project had no chunks in retrieval top-k"]);
}

#[test]
fn rerank_stage_statuses() {
    let before = vec![scored("t", 0, 5)];
    let after_top = vec![scored("t", 0, 2)];
    let r = rerank_stage(&before, &after_top, "t");
    assert_eq!(r.status, StageStatus::Pass);
    assert_eq!(r.evidence, vec!["target moved from retrieval rank 5 to rerank rank 2"]);

    let after_same = vec![scored("t", 0, 5)];
    assert_eq!(rerank_stage(&before, &after_same, "t").status, StageStatus::Partial);

    let after_worse = vec![scored("t", 0, 6)];
    assert_eq!(rerank_stage(&before, &after_worse, "t").status, StageStatus::Fail);

    let appeared = rerank_stage(&[], &after_worse, "t");
    assert_eq!(appeared.status, StageStatus::Partial);
    assert_eq!(appeared.evidence, vec!["target appeared after rerank at rank 6"]);

    let first = vec![scored("t", 0, 1)];
    let third = vec![scored("t", 0, 3)];
    let demoted = rerank_stage(&first, &third, "t");
    assert_eq!(demoted.status, StageStatus::Fail);
    assert_eq!(demoted.target_rank, Some(3));
    assert_eq!(demoted.evidence, vec!["target moved from retrieval rank 1 to rerank rank 3"]);
    assert_eq!(rerank_stage(&third, &first, "t").status, StageStatus::Pass);
    assert_eq!(rerank_stage(&third, &third, "t").status, StageStatus::Pass);

    let absent = rerank_stage(&before, &[], "t");
    assert_eq!(absent.status, StageStatus::Fail);
    assert_eq!(absent.target_rank, None);
    assert_eq!(absent.evidence, vec!["target absent after rerank"]);
}

#[test]
fn query_terms_overlap() {
    let terms = query_term_set("Citation debugger citation tool");
    assert_eq!(terms, vec!["citation", "debugger", "tool"]);
    assert_eq!(overlap_count(&terms, "A citation TOOL for you"), 2);
    assert_eq!(overlap_count(&Vec::new(), "anything"), 0);
}

#[test]
fn clarity_lookup_takes_last_document_with_the_id() {
    let mk = |id: &str, clarity: u32| ParsedDocument {
        document: Document {
            id: id.into(),
            title: id.into(),
            path: "p".into(),
            source_kind: SourceKind::Target,
            content: String::new(),
        },
        sections: Vec::new(),
        summary: String::new(),
        features: StructuralFeatures {
            has_top_definition: false,
            max_heading_depth: 1,
            install_section_position: None,
            use_case_term_count: 0,
            clarity_score: clarity,
        },
    };
    let parsed = vec![mk("a", 40), mk("b", 60), mk("a", 80)];
    assert_eq!(clarity_of(&parsed, &"a".to_string()), Some(80));
    assert_eq!(clarity_of(&parsed, &"b".to_string()), Some(60));
    assert_eq!(clarity_of(&parsed, &"c".to_string()), None);
}
