//! The records that flow through the pipeline: documents, chunks, stage
//! verdicts and the final trace.
use vstd::prelude::*;
use crate::text::own;

verus! {

/// Errors of the corpus model.
#[derive(Debug, Clone, PartialEq)]
pub enum CiteStageError {
    MissingTarget(String),
    EmptyCorpus,
}

impl CiteStageError {
    /// The message that describes this error.
    pub fn message(&self) -> (r: String)
        ensures
            r@ == spec_error_message(*self),
    {
        match self {
            CiteStageError::MissingTarget(id) => {
                let mut m = own("missing target document: ");
                crate::text::push_str(&mut m, id.as_str());
                m
            },
            CiteStageError::EmptyCorpus => own("empty corpus"),
        }
    }
}

/// The message of an error.
pub open spec fn spec_error_message(e: CiteStageError) -> Seq<char> {
    match e {
        CiteStageError::MissingTarget(id) => "missing target document: "@ + id@,
        CiteStageError::EmptyCorpus => "empty corpus"@,
    }
}

/// The role a document plays in a corpus.
#[derive(Debug, Clone, Copy, PartialEq, Eq, Structural)]
pub enum SourceKind {
    Target,
    Competitor,
    Distractor,
}

/// One source document.
#[derive(Debug, Clone, PartialEq)]
pub struct Document {
    pub id: String,
    pub title: String,
    pub path: String,
    pub source_kind: SourceKind,
    pub content: String,
}

/// The documents that compete for a query, one of which is the target.
#[derive(Debug, Clone, PartialEq)]
pub struct Corpus {
    pub target_id: String,
    pub documents: Vec<Document>,
}

/// Whether `i` is the first position of `docs` whose id is `id`.
pub open spec fn is_first_with_id(docs: Seq<Document>, id: Seq<char>, i: int) -> bool {
    &&& 0 <= i < docs.len()
    &&& docs[i].id@ == id
    &&& forall|j: int| 0 <= j < i ==> docs[j].id@ != id
}

impl Corpus {
    /// The first document whose id is the target id, if there is one.
    pub fn target(&self) -> (r: Option<&Document>)
        ensures
            match r {
                Some(d) => exists|i: int|
                    is_first_with_id(self.documents@, self.target_id@, i) && *d
                        == self.documents@[i],
                None => forall|j: int|
                    0 <= j < self.documents@.len() ==> self.documents@[j].id@
                        != self.target_id@,
            },
    {
        let mut i: usize = 0;
        while i < self.documents.len()
            invariant
                i <= self.documents.len(),
                forall|j: int| 0 <= j < i ==> self.documents@[j].id@ != self.target_id@,
            decreases self.documents.len() - i,
        {
            if self.documents[i].id == self.target_id {
                let d = &self.documents[i];
                assert(is_first_with_id(self.documents@, self.target_id@, i as int));
                return Some(d);
            }
            i += 1;
        }
        None
    }
}

/// A query and the document it is expected to surface.
#[derive(Debug, Clone, PartialEq)]
pub struct Query {
    pub text: String,
    pub target_id: String,
}

/// A titled part of a document.
#[derive(Debug, Clone, PartialEq)]
pub struct Section {
    pub heading: String,
    pub level: usize,
    pub text: String,
}

/// Structural signals read from a document.
#[derive(Debug, Clone, PartialEq)]
pub struct StructuralFeatures {
    pub has_top_definition: bool,
    pub max_heading_depth: usize,
    pub install_section_position: Option<usize>,
    pub use_case_term_count: usize,
    /// The clarity score in hundredths: 100 stands for 1.0.
    pub clarity_score: u32,
}

/// A document with its sections, summary and structural signals.
#[derive(Debug, Clone, PartialEq)]
pub struct ParsedDocument {
    pub document: Document,
    pub sections: Vec<Section>,
    pub summary: String,
    pub features: StructuralFeatures,
}

/// An indexable window of a document's tokens.
#[derive(Debug, Clone, PartialEq)]
pub struct Chunk {
    pub id: String,
    pub document_id: String,
    pub source_kind: SourceKind,
    pub title: String,
    pub heading: String,
    pub text: String,
    pub token_count: usize,
}

/// A chunk with a relevance score and its rank in a result list.
#[derive(Debug, Clone, PartialEq)]
pub struct ScoredChunk {
    pub chunk: Chunk,
    /// The relevance score as its position in the total order of 32-bit
    /// floating-point numbers: a larger key is a higher score.
    pub score: u32,
    pub rank: usize,
    pub evidence: String,
}

/// The verdict of one stage.
#[derive(Debug, Clone, Copy, PartialEq, Eq, Structural)]
pub enum StageStatus {
    Pass,
    Partial,
    Fail,
}

impl StageStatus {
    /// The variant's name.
    pub fn name(&self) -> (r: String)
        ensures
            r@ == spec_status_name(*self),
    {
        match self {
            StageStatus::Pass => own("Pass"),
            StageStatus::Partial => own("Partial"),
            StageStatus::Fail => own("Fail"),
        }
    }
}

/// The name of a stage status.
pub open spec fn spec_status_name(s: StageStatus) -> Seq<char> {
    match s {
        StageStatus::Pass => "Pass"@,
        StageStatus::Partial => "Partial"@,
        StageStatus::Fail => "Fail"@,
    }
}

/// What one stage of the pipeline concluded about the target.
#[derive(Debug, Clone, PartialEq)]
pub struct StageResult {
    pub stage: String,
    pub status: StageStatus,
    pub target_present: bool,
    pub target_rank: Option<usize>,
    pub evidence: Vec<String>,
}

impl StageResult {
    /// A passing stage that found the target, with no rank.
    pub fn pass(stage: &str, evidence: Vec<String>) -> (r: Self)
        ensures
            r.stage@ == stage@,
            r.status == StageStatus::Pass,
            r.target_present,
            r.target_rank is None,
            r.evidence == evidence,
    {
        StageResult {
            stage: own(stage),
            status: StageStatus::Pass,
            target_present: true,
            target_rank: None,
            evidence,
        }
    }

    /// A stage verdict whose target presence is whether a rank is given.
    pub fn with_rank(
        stage: &str,
        status: StageStatus,
        target_rank: Option<usize>,
        evidence: Vec<String>,
    ) -> (r: Self)
        ensures
            r.stage@ == stage@,
            r.status == status,
            r.target_present == target_rank is Some,
            r.target_rank == target_rank,
            r.evidence == evidence,
    {
        StageResult {
            stage: own(stage),
            status,
            target_present: target_rank.is_some(),
            target_rank,
            evidence,
        }
    }

    /// The same verdict with its target presence replaced.
    pub fn with_target_presence(self, present: bool) -> (r: Self)
        ensures
            r == (StageResult { target_present: present, ..self }),
    {
        let mut s = self;
        s.target_present = present;
        s
    }
}

/// The stage at which a citation was lost.
#[derive(Debug, Clone, Copy, PartialEq, Eq, Structural)]
pub enum FailureClass {
    CrawlFailure,
    ParseFailure,
    IndexFailure,
    RetrievalFailure,
    RerankFailure,
    SynthesisFailure,
    CitationFailure,
    FactualityFailure,
}

impl FailureClass {
    /// The variant's name.
    pub fn name(&self) -> (r: String)
        ensures
            r@ == spec_failure_name(*self),
    {
        match self {
            FailureClass::CrawlFailure => own("CrawlFailure"),
            FailureClass::ParseFailure => own("ParseFailure"),
            FailureClass::IndexFailure => own("IndexFailure"),
            FailureClass::RetrievalFailure => own("RetrievalFailure"),
            FailureClass::RerankFailure => own("RerankFailure"),
            FailureClass::SynthesisFailure => own("SynthesisFailure"),
            FailureClass::CitationFailure => own("CitationFailure"),
            FailureClass::FactualityFailure => own("FactualityFailure"),
        }
    }
}

/// The name of a failure class.
pub open spec fn spec_failure_name(f: FailureClass) -> Seq<char> {
    match f {
        FailureClass::CrawlFailure => "CrawlFailure"@,
        FailureClass::ParseFailure => "ParseFailure"@,
        FailureClass::IndexFailure => "IndexFailure"@,
        FailureClass::RetrievalFailure => "RetrievalFailure"@,
        FailureClass::RerankFailure => "RerankFailure"@,
        FailureClass::SynthesisFailure => "SynthesisFailure"@,
        FailureClass::CitationFailure => "CitationFailure"@,
        FailureClass::FactualityFailure => "FactualityFailure"@,
    }
}

/// A titled list of repair steps.
#[derive(Debug, Clone, PartialEq)]
pub struct RepairPlan {
    pub title: String,
    pub steps: Vec<String>,
}

/// The primary failure of a trace, with its evidence and repairs.
#[derive(Debug, Clone, PartialEq)]
pub struct Diagnosis {
    pub primary_failure: FailureClass,
    pub stage: String,
    pub evidence: Vec<String>,
    pub repair_plan: RepairPlan,
}

/// Everything one run of the pipeline recorded.
#[derive(Debug, Clone, PartialEq)]
pub struct StageTrace {
    pub query: Query,
    pub target: String,
    pub stages: Vec<StageResult>,
    pub cited_sources: Vec<String>,
    pub diagnosis: Option<Diagnosis>,
}

} // verus!
