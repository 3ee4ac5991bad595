use citestage::diagnose::{diagnose, failure_for_stage, repair_plan};
use citestage::generate::{citation_stage, synthesize, synthesize_stage, GeneratedAnswer};
use citestage::index::Bm25Index;
use citestage::model::{
    Chunk, Corpus, Diagnosis, Document, FailureClass, ParsedDocument, Query, RepairPlan,
    ScoredChunk, SourceKind, StageResult, StageStatus, StageTrace,
};
use citestage::pipeline::{
    crawl_stage, index_stage, parse_stage, pipeline_fits, run_pipeline, summary,
};
use citestage::rank::rank_results;
use citestage::report::render_markdown;
use citestage::text::tokenize;

fn scored(doc: &str, title: &str, text: &str, rank: usize) -> ScoredChunk {
    ScoredChunk {
        chunk: Chunk {
            id: format!("{}-0-0", doc),
            document_id: doc.into(),
            source_kind: SourceKind::Competitor,
            title: title.into(),
            heading: "Overview".into(),
            text: text.into(),
            token_count: 1,
        },
        score: 0,
        rank,
        evidence: String::new(),
    }
}

fn document(id: &str, kind: SourceKind, content: &str) -> Document {
    Document {
        id: id.into(),
        title: id.into(),
        path: format!("{}/README.md", id),
        source_kind: kind,
        content: content.into(),
    }
}

#[test]
fn synthesize_cites_each_document_once() {
    let chunks = vec![
        scored("a", "A", "one two three", 1),
        scored("b", "B", "four", 2),
        scored("a", "A", "five", 3),
        scored("c", "C", "six", 4),
    ];
    let answer = synthesize("q", &chunks, 3);
    assert_eq!(answer.cited_sources, vec!["a", "b"]);
    assert_eq!(
        answer.answer,
        "For 'q', local evidence suggests: A: one two three [a] B: four [b] A: five [a]"
    );
}

#[test]
fn synthesize_without_chunks_reports_no_evidence() {
    let answer = synthesize("best tool", &[], 3);
    assert_eq!(answer.answer, "No local evidence found for query: best tool");
    assert!(answer.cited_sources.is_empty());
    let stage = synthesize_stage(&answer, "t");
    assert_eq!(stage.stage, "synthesize");
    assert_eq!(stage.status, StageStatus::Fail);
    assert!(!stage.target_present);
    assert_eq!(stage.evidence, vec!["generator had no evidence to synthesize"]);
}

#[test]
fn synthesize_stage_marks_target_presence() {
    let answer = GeneratedAnswer { answer: "For 'q' ...".into(), cited_sources: vec!["x".into()] };
    let present = synthesize_stage(&answer, "x");
    assert_eq!(present.status, StageStatus::Pass);
    assert!(present.target_present);
    assert_eq!(present.target_rank, None);
    assert!(!synthesize_stage(&answer, "y").target_present);
}

#[test]
fn citation_stage_positions() {
    let answer = GeneratedAnswer {
        answer: String::new(),
        cited_sources: vec!["x".into(), "t".into()],
    };
    let cited = citation_stage(&answer, "t");
    assert_eq!(cited.status, StageStatus::Pass);
    assert_eq!(cited.target_rank, Some(2));
    assert_eq!(cited.evidence, vec!["target cited at citation position 2"]);
    let missing = citation_stage(&answer, "z");
    assert_eq!(missing.status, StageStatus::Fail);
    assert!(!missing.target_present);
    assert_eq!(missing.evidence, vec!["target not cited; cited sources were: x, t"]);
}

#[test]
fn stage_result_constructors() {
    let p = StageResult::pass("crawl", vec!["ok".into()]);
    assert_eq!(p.status, StageStatus::Pass);
    assert!(p.target_present);
    assert_eq!(p.target_rank, None);
    let r = StageResult::with_rank("x", StageStatus::Fail, None, vec![]);
    assert!(!r.target_present);
    let r = StageResult::with_rank("x", StageStatus::Partial, Some(4), vec![]);
    assert!(r.target_present);
    assert!(!r.with_target_presence(false).target_present);
}

#[test]
fn corpus_target_is_first_match() {
    let corpus = Corpus {
        target_id: "t".into(),
        documents: vec![
            document("a", SourceKind::Competitor, "x"),
            document("t", SourceKind::Target, "first"),
            document("t", SourceKind::Target, "second"),
        ],
    };
    assert_eq!(corpus.target().unwrap().content, "first");
    let missing = Corpus { target_id: "zz".into(), documents: corpus.documents.clone() };
    assert!(missing.target().is_none());
}

fn stage(name: &str, status: StageStatus, evidence: &str) -> StageResult {
    StageResult::with_rank(name, status, Some(1), vec![evidence.into()])
}

fn trace_of(stages: Vec<StageResult>) -> StageTrace {
    StageTrace {
        query: Query { text: "q".into(), target_id: "t".into() },
        target: "t".into(),
        stages,
        cited_sources: Vec::new(),
        diagnosis: None,
    }
}

#[test]
fn diagnose_names_first_failing_stage() {
    let trace = trace_of(vec![
        stage("crawl", StageStatus::Pass, "e0"),
        stage("rerank", StageStatus::Partial, "e1"),
        stage("cite", StageStatus::Fail, "e2"),
    ]);
    let d = diagnose(&trace);
    assert_eq!(d.primary_failure, FailureClass::RerankFailure);
    assert_eq!(d.stage, "rerank");
    assert_eq!(d.evidence, vec!["e1"]);
    assert_eq!(d.repair_plan.title, "Strengthen structural clarity signals");
    assert_eq!(d.repair_plan.steps.len(), 3);
}

#[test]
fn diagnose_all_passed_is_factuality() {
    let trace = trace_of(vec![stage("crawl", StageStatus::Pass, "e0")]);
    let d = diagnose(&trace);
    assert_eq!(d.primary_failure, FailureClass::FactualityFailure);
    assert_eq!(d.stage, "none");
    assert_eq!(d.evidence, vec!["all modeled stages passed; validate answer factuality manually"]);
    assert_eq!(d.repair_plan.title, "Validate factuality outside the citation simulator");
    let empty = diagnose(&trace_of(Vec::new()));
    assert_eq!(empty.stage, "none");
}

#[test]
fn unknown_stage_names_are_factuality() {
    assert_eq!(failure_for_stage(&"lint".to_string()), FailureClass::FactualityFailure);
    assert_eq!(failure_for_stage(&"index".to_string()), FailureClass::IndexFailure);
    assert_eq!(repair_plan(&FailureClass::FactualityFailure).title, "Check claim support");
}

#[test]
fn report_matches_sample_diagnosis() {
    let stages = vec![
        StageResult::pass("crawl", vec!["loaded 5 documents".into()]),
        StageResult::with_rank(
            "parse",
            StageStatus::Partial,
            Some(1),
            vec![
                "parsed 4 sections; clarity score 0.40".into(),
                "no one-sentence definition detected near the top".into(),
            ],
        ),
        StageResult::with_rank("index", StageStatus::Pass, Some(1), vec!["target produced 4 indexable chunks".into()]),
        StageResult::with_rank("retrieve", StageStatus::Pass, Some(2), vec!["target chunk retrieved at rank 2".into()]),
        StageResult::with_rank("rerank", StageStatus::Pass, Some(2), vec!["target moved from retrieval rank 2 to rerank rank 2".into()]),
        StageResult::pass("synthesize", vec!["deterministic extractive answer produced".into()]),
        StageResult::with_rank("cite", StageStatus::Pass, Some(2), vec!["target cited at citation position 2".into()]),
    ];
    let mut trace = StageTrace {
        query: Query {
            text: "best NixOS home manager flake template for reproducible machines".into(),
            target_id: "os-nixcfg".into(),
        },
        target: "os-nixcfg".into(),
        stages,
        cited_sources: vec![],
        diagnosis: None,
    };
    trace.diagnosis = Some(diagnose(&trace));
    let expected = "# CiteStage Diagnosis Report\n\n\
**Query:** `best NixOS home manager flake template for reproducible machines`\n\n\
**Target:** `os-nixcfg`\n\n\
## Pipeline trace\n\n\
| Stage | Status | Target rank | Evidence |\n\
| --- | --- | --- | --- |\n\
| crawl | Pass | — | loaded 5 documents |\n\
| parse | Partial | 1 | parsed 4 sections; clarity score 0.40; no one-sentence definition detected near the top |\n\
| index | Pass | 1 | target produced 4 indexable chunks |\n\
| retrieve | Pass | 2 | target chunk retrieved at rank 2 |\n\
| rerank | Pass | 2 | target moved from retrieval rank 2 to rerank rank 2 |\n\
| synthesize | Pass | — | deterministic extractive answer produced |\n\
| cite | Pass | 2 | target cited at citation position 2 |\n\
\n\
## Primary failure\n\n\
**ParseFailure** at stage `parse`.\n\n\
### Evidence\n\n\
- parsed 4 sections; clarity score 0.40\n\
- no one-sentence definition detected near the top\n\
\n### Suggested repairs\n\n\
**Make the README parse cleanly**\n\n\
- Add a one-sentence definition near the top\n\
- Use descriptive Markdown headings instead of dense prose blocks\n\
- Move quickstart and use-cases before low-level topology details\n";
    assert_eq!(render_markdown(&trace), expected);
    assert_eq!(summary(&trace), "ParseFailure at parse");
}

#[test]
fn report_escapes_pipes_and_notes_missing_diagnosis() {
    let trace = trace_of(vec![StageResult::with_rank("x", StageStatus::Fail, None, vec!["a|b".into(), "c".into()])]);
    let report = render_markdown(&trace);
    assert!(report.contains("| x | Fail | — | a\\|b; c |\n"));
    assert!(report.ends_with("## Primary failure\n\nNo diagnosis was attached to this trace.\n"));
    assert_eq!(summary(&trace), "no diagnosis");
}

#[test]
fn crawl_parse_index_stages() {
    let corpus = Corpus {
        target_id: "t".into(),
        documents: vec![
            document("t", SourceKind::Target, "# T\nT is a tool for citation debugging.\n"),
            document("c", SourceKind::Competitor, "citation things"),
        ],
    };
    let crawl = crawl_stage(&corpus);
    assert_eq!(crawl.status, StageStatus::Pass);
    assert_eq!(crawl.evidence, vec!["loaded 2 documents"]);
    let lost = crawl_stage(&Corpus { target_id: "x".into(), documents: vec![] });
    assert_eq!(lost.status, StageStatus::Fail);
    assert_eq!(lost.evidence, vec!["target document was not loaded into the corpus"]);

    let parsed = citestage::parse::parse_documents(&corpus.documents);
    let p = parse_stage(&parsed, "t");
    assert_eq!(p.status, StageStatus::Pass);
    assert_eq!(p.target_rank, Some(1));
    assert_eq!(p.evidence, vec!["parsed 1 sections; clarity score 0.60"]);
    let missing = parse_stage(&parsed, "x");
    assert_eq!(missing.status, StageStatus::Fail);
    assert_eq!(missing.evidence, vec!["target was unavailable after parsing"]);

    let index = Bm25Index::new(citestage::index::chunks_from_parsed(&parsed));
    let i = index_stage(&index, "t");
    assert_eq!(i.status, StageStatus::Pass);
    assert_eq!(i.evidence, vec!["target produced 1 indexable chunks"]);
    let none = index_stage(&index, "x");
    assert_eq!(none.status, StageStatus::Fail);
    assert_eq!(none.evidence, vec!["target produced no indexable chunks"]);
}

fn overlap_retrieve(index: &Bm25Index, query: &str, top_k: usize) -> Vec<ScoredChunk> {
    let terms = tokenize(query);
    let mut candidates = Vec::new();
    for chunk in index.chunks() {
        let words = tokenize(&chunk.text);
        let hits = terms.iter().filter(|t| words.contains(t)).count() as u32;
        if hits > 0 {
            candidates.push(ScoredChunk { chunk: chunk.clone(), score: hits, rank: 0, evidence: String::new() });
        }
    }
    rank_results(candidates, top_k)
}

fn keep_order(_q: &str, retrieved: &Vec<ScoredChunk>, _p: &Vec<ParsedDocument>) -> Vec<ScoredChunk> {
    retrieved.clone()
}

#[test]
fn pipeline_runs_seven_stages_and_diagnoses() {
    let corpus = Corpus {
        target_id: "t".into(),
        documents: vec![
            document("t", SourceKind::Target, "# Tool\nTool is a citation debugger.\n## Install\nRun it."),
            document("c", SourceKind::Competitor, "# Other\nA citation manager."),
        ],
    };
    assert!(pipeline_fits(&corpus));
    let trace = run_pipeline("citation debugger", corpus, None, overlap_retrieve, keep_order);
    let names: Vec<&str> = trace.stages.iter().map(|s| s.stage.as_str()).collect();
    assert_eq!(names, vec!["crawl", "parse", "index", "retrieve", "rerank", "synthesize", "cite"]);
    assert_eq!(trace.target, "t");
    assert_eq!(trace.stages[3].target_rank, Some(1));
    assert_eq!(trace.cited_sources, vec!["t", "c"]);
    let d = trace.diagnosis.clone().unwrap();
    assert_eq!(d.stage, "none");
    assert_eq!(d.primary_failure, FailureClass::FactualityFailure);
}

#[test]
fn pipeline_target_override_changes_target() {
    let corpus = Corpus {
        target_id: "t".into(),
        documents: vec![document("t", SourceKind::Target, "citation debugger")],
    };
    let trace = run_pipeline("citation", corpus, Some("missing"), overlap_retrieve, keep_order);
    assert_eq!(trace.target, "missing");
    assert_eq!(trace.query.target_id, "missing");
    assert_eq!(trace.stages[0].status, StageStatus::Fail);
    let d: Diagnosis = trace.diagnosis.unwrap();
    assert_eq!(d.primary_failure, FailureClass::CrawlFailure);
    assert_eq!(d.stage, "crawl");
    let _unused = RepairPlan { title: String::new(), steps: vec![] };
}

fn reverse(_q: &str, retrieved: &Vec<ScoredChunk>, _p: &Vec<ParsedDocument>) -> Vec<ScoredChunk> {
    let mut out: Vec<ScoredChunk> = retrieved.iter().rev().cloned().collect();
    for (k, item) in out.iter_mut().enumerate() {
        item.rank = k + 1;
    }
    out
}

#[test]
fn demoted_target_is_diagnosed_as_rerank_failure() {
    let corpus = Corpus {
        target_id: "t".into(),
        documents: vec![
            document("t", SourceKind::Target, "# Tool\nTool is a citation debugger.\n## Install\nRun it."),
            document("c", SourceKind::Competitor, "# Other\nA citation debugger manager."),
        ],
    };
    let trace = run_pipeline("citation debugger tool", corpus, None, overlap_retrieve, reverse);
    assert_eq!(trace.stages[3].target_rank, Some(1));
    assert_eq!(trace.stages[4].target_rank, Some(2));
    assert_eq!(trace.stages[4].status, StageStatus::Fail);
    let d = trace.diagnosis.unwrap();
    assert_eq!(d.stage, "rerank");
    assert_eq!(d.primary_failure, FailureClass::RerankFailure);
    assert_eq!(d.evidence, vec!["target moved from retrieval rank 1 to rerank rank 2"]);
}

#[test]
fn same_inputs_give_the_same_trace() {
    let make = || Corpus {
        target_id: "t".into(),
        documents: vec![
            document("t", SourceKind::Target, "# Tool\nTool is a citation debugger.\n## Install\nRun it."),
            document("c", SourceKind::Competitor, "# Other\nA citation manager."),
        ],
    };
    let first = run_pipeline("citation debugger", make(), None, overlap_retrieve, keep_order);
    let second = run_pipeline("citation debugger", make(), None, overlap_retrieve, keep_order);
    assert_eq!(first, second);
}
