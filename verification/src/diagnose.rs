//! Diagnosis: the first stage that did not pass names the primary failure,
//! and each failure class has a fixed repair plan.
use vstd::prelude::*;
use crate::model::{Diagnosis, FailureClass, RepairPlan, StageResult, StageStatus, StageTrace};
use crate::text::{clone_strings, own, same_text};

verus! {

/// The failure class that a stage name stands for.
pub open spec fn spec_failure_for_stage(stage: Seq<char>) -> FailureClass {
    if stage == "crawl"@ {
        FailureClass::CrawlFailure
    } else if stage == "parse"@ {
        FailureClass::ParseFailure
    } else if stage == "index"@ {
        FailureClass::IndexFailure
    } else if stage == "retrieve"@ {
        FailureClass::RetrievalFailure
    } else if stage == "rerank"@ {
        FailureClass::RerankFailure
    } else if stage == "synthesize"@ {
        FailureClass::SynthesisFailure
    } else if stage == "cite"@ {
        FailureClass::CitationFailure
    } else {
        FailureClass::FactualityFailure
    }
}

/// The failure class that a stage name stands for.
pub fn failure_for_stage(stage: &String) -> (r: FailureClass)
    ensures
        r == spec_failure_for_stage(stage@),
{
    if same_text(stage, "crawl") {
        FailureClass::CrawlFailure
    } else if same_text(stage, "parse") {
        FailureClass::ParseFailure
    } else if same_text(stage, "index") {
        FailureClass::IndexFailure
    } else if same_text(stage, "retrieve") {
        FailureClass::RetrievalFailure
    } else if same_text(stage, "rerank") {
        FailureClass::RerankFailure
    } else if same_text(stage, "synthesize") {
        FailureClass::SynthesisFailure
    } else if same_text(stage, "cite") {
        FailureClass::CitationFailure
    } else {
        FailureClass::FactualityFailure
    }
}

/// A repair plan as plain values: title and steps.
pub open spec fn plan_model(p: RepairPlan) -> (Seq<char>, Seq<Seq<char>>) {
    (p.title@, p.steps.deep_view())
}

/// The repair plan of each failure class.
pub open spec fn spec_repair_plan(f: FailureClass) -> (Seq<char>, Seq<Seq<char>>) {
    match f {
        FailureClass::CrawlFailure => (
            "Make the project discoverable"@,
            seq![
                "Add a README.md at the repository root"@,
                "Publish an llms.txt file that points engines to canonical docs"@,
                "Ensure docs are linked from public package and repository metadata"@,
            ],
        ),
        FailureClass::ParseFailure => (
            "Make the README parse cleanly"@,
            seq![
                "Add a one-sentence definition near the top"@,
                "Use descriptive Markdown headings instead of dense prose blocks"@,
                "Move quickstart and use-cases before low-level topology details"@,
            ],
        ),
        FailureClass::IndexFailure => (
            "Improve indexable chunks"@,
            seq![
                "Repeat product and category terms in headings and first paragraphs"@,
                "Split long sections into focused chunks with query-matching headings"@,
                "Add concise summaries for major sections"@,
            ],
        ),
        FailureClass::RetrievalFailure => (
            "Align docs with likely user queries"@,
            seq![
                "Add use-case language that matches target search queries"@,
                "Name competitor-adjacent concepts explicitly and accurately"@,
                "Add examples for the queries where the target should appear"@,
            ],
        ),
        FailureClass::RerankFailure => (
            "Strengthen structural clarity signals"@,
            seq![
                "Add a clear definition in the first screenful"@,
                "Add a use-cases section before implementation topology"@,
                "Keep install instructions easy to identify"@,
            ],
        ),
        FailureClass::SynthesisFailure => (
            "Provide extractable answer material"@,
            seq![
                "Add short answer-shaped paragraphs under each key heading"@,
                "Avoid hiding the value proposition in code blocks only"@,
            ],
        ),
        FailureClass::CitationFailure => (
            "Make citation assignment unambiguous"@,
            seq![
                "Ensure chunks include source-specific product names"@,
                "Add canonical examples that are not duplicated from competitors"@,
                "Add llms.txt with preferred citation URLs"@,
            ],
        ),
        FailureClass::FactualityFailure => (
            "Check claim support"@,
            seq![
                "Trace each generated claim to a source sentence"@,
                "Remove unsupported comparison claims"@,
            ],
        ),
    }
}

fn plan(title: &str, steps: Vec<String>) -> (r: RepairPlan)
    ensures
        r.title@ == title@,
        r.steps == steps,
{
    RepairPlan { title: own(title), steps }
}

fn steps2(a: &str, b: &str) -> (r: Vec<String>)
    ensures
        r.deep_view() == seq![a@, b@],
{
    let mut v: Vec<String> = Vec::new();
    v.push(own(a));
    v.push(own(b));
    assert(v.deep_view() =~= seq![a@, b@]);
    v
}

fn steps3(a: &str, b: &str, c: &str) -> (r: Vec<String>)
    ensures
        r.deep_view() == seq![a@, b@, c@],
{
    let mut v: Vec<String> = Vec::new();
    v.push(own(a));
    v.push(own(b));
    v.push(own(c));
    assert(v.deep_view() =~= seq![a@, b@, c@]);
    v
}

/// The repair plan for a failure class.
pub fn repair_plan(failure: &FailureClass) -> (r: RepairPlan)
    ensures
        plan_model(r) == spec_repair_plan(*failure),
{
    match failure {
        FailureClass::CrawlFailure => plan(
            "Make the project discoverable",
            steps3(
                "Add a README.md at the repository root",
                "Publish an llms.txt file that points engines to canonical docs",
                "Ensure docs are linked from public package and repository metadata",
            ),
        ),
        FailureClass::ParseFailure => plan(
            "Make the README parse cleanly",
            steps3(
                "Add a one-sentence definition near the top",
                "Use descriptive Markdown headings instead of dense prose blocks",
                "Move quickstart and use-cases before low-level topology details",
            ),
        ),
        FailureClass::IndexFailure => plan(
            "Improve indexable chunks",
            steps3(
                "Repeat product and category terms in headings and first paragraphs",
                "Split long sections into focused chunks with query-matching headings",
                "Add concise summaries for major sections",
            ),
        ),
        FailureClass::RetrievalFailure => plan(
            "Align docs with likely user queries",
            steps3(
                "Add use-case language that matches target search queries",
                "Name competitor-adjacent concepts explicitly and accurately",
                "Add examples for the queries where the target should appear",
            ),
        ),
        FailureClass::RerankFailure => plan(
            "Strengthen structural clarity signals",
            steps3(
                "Add a clear definition in the first screenful",
                "Add a use-cases section before implementation topology",
                "Keep install instructions easy to identify",
            ),
        ),
        FailureClass::SynthesisFailure => plan(
            "Provide extractable answer material",
            steps2(
                "Add short answer-shaped paragraphs under each key heading",
                "Avoid hiding the value proposition in code blocks only",
            ),
        ),
        FailureClass::CitationFailure => plan(
            "Make citation assignment unambiguous",
            steps3(
                "Ensure chunks include source-specific product names",
                "Add canonical examples that are not duplicated from competitors",
                "Add llms.txt with preferred citation URLs",
            ),
        ),
        FailureClass::FactualityFailure => plan(
            "Check claim support",
            steps2(
                "Trace each generated claim to a source sentence",
                "Remove unsupported comparison claims",
            ),
        ),
    }
}

/// Whether a stage did not pass.
pub open spec fn is_failing(s: StageResult) -> bool {
    s.status == StageStatus::Fail || s.status == StageStatus::Partial
}

/// The position of the first stage that did not pass.
pub open spec fn spec_first_failing(stages: Seq<StageResult>) -> Option<int>
    decreases stages.len(),
{
    if stages.len() == 0 {
        None
    } else {
        match spec_first_failing(stages.drop_last()) {
            Some(i) => Some(i),
            None => if is_failing(stages.last()) {
                Some(stages.len() - 1)
            } else {
                None
            },
        }
    }
}

/// A diagnosis as plain values: failure, stage, evidence and plan.
pub open spec fn diagnosis_model(d: Diagnosis) -> (
    FailureClass,
    Seq<char>,
    Seq<Seq<char>>,
    (Seq<char>, Seq<Seq<char>>),
) {
    (d.primary_failure, d.stage@, d.evidence.deep_view(), plan_model(d.repair_plan))
}

/// The diagnosis of a run in which every stage passed.
pub open spec fn all_passed_diagnosis() -> (
    FailureClass,
    Seq<char>,
    Seq<Seq<char>>,
    (Seq<char>, Seq<Seq<char>>),
) {
    (
        FailureClass::FactualityFailure,
        "none"@,
        seq!["all modeled stages passed; validate answer factuality manually"@],
        (
            "Validate factuality outside the citation simulator"@,
            seq![
                "Run human review against the source documents"@,
                "Add claim-level checks before publishing generated answers"@,
            ],
        ),
    )
}

/// The diagnosis of a list of stage verdicts: the first stage that did not
/// pass, with its failure class, evidence and repair plan.
pub open spec fn spec_diagnose(stages: Seq<StageResult>) -> (
    FailureClass,
    Seq<char>,
    Seq<Seq<char>>,
    (Seq<char>, Seq<Seq<char>>),
) {
    match spec_first_failing(stages) {
        Some(i) => {
            let f = spec_failure_for_stage(stages[i].stage@);
            (f, stages[i].stage@, stages[i].evidence.deep_view(), spec_repair_plan(f))
        },
        None => all_passed_diagnosis(),
    }
}

pub proof fn lemma_first_failing(stages: Seq<StageResult>)
    ensures
        match spec_first_failing(stages) {
            Some(i) => 0 <= i < stages.len() && is_failing(stages[i]) && forall|j: int|
                0 <= j < i ==> !is_failing(#[trigger] stages[j]),
            None => forall|j: int| 0 <= j < stages.len() ==> !is_failing(#[trigger] stages[j]),
        },
    decreases stages.len(),
{
    if stages.len() > 0 {
        lemma_first_failing(stages.drop_last());
        let p = stages.drop_last();
        assert forall|j: int| 0 <= j < p.len() implies p[j] == stages[j] by {}
    }
}

/// Names the primary failure of a trace: the first stage that did not pass.
pub fn diagnose(trace: &StageTrace) -> (r: Diagnosis)
    ensures
        diagnosis_model(r) == spec_diagnose(trace.stages@),
{
    let ghost stages = trace.stages@;
    let mut i: usize = 0;
    proof {
        assert(stages.take(0) =~= Seq::<StageResult>::empty());
    }
    while i < trace.stages.len()
        invariant
            i <= stages.len(),
            stages == trace.stages@,
            spec_first_failing(stages.take(i as int)) is None,
        decreases stages.len() - i,
    {
        let st = &trace.stages[i];
        proof {
            assert(stages.take(i + 1).drop_last() =~= stages.take(i as int));
        }
        if st.status == StageStatus::Fail || st.status == StageStatus::Partial {
            proof {
                lemma_first_failing(stages);
                lemma_first_failing(stages.take(i + 1));
                lemma_first_failing(stages.take(i as int));
                let k = spec_first_failing(stages);
                if k != Some(i as int) {
                    match k {
                        Some(k) => {
                            if k < i {
                                assert(stages.take(i as int)[k] == stages[k]);
                            }
                        },
                        None => {},
                    }
                }
            }
            let failure = failure_for_stage(&st.stage);
            return Diagnosis {
                primary_failure: failure,
                stage: st.stage.clone(),
                evidence: clone_strings(&st.evidence),
                repair_plan: repair_plan(&failure),
            };
        }
        i += 1;
    }
    proof {
        assert(stages.take(stages.len() as int) =~= stages);
    }
    let mut evidence: Vec<String> = Vec::new();
    evidence.push(own("all modeled stages passed; validate answer factuality manually"));
    assert(evidence.deep_view() =~= seq![
        "all modeled stages passed; validate answer factuality manually"@,
    ]);
    Diagnosis {
        primary_failure: FailureClass::FactualityFailure,
        stage: own("none"),
        evidence,
        repair_plan: plan(
            "Validate factuality outside the citation simulator",
            steps2(
                "Run human review against the source documents",
                "Add claim-level checks before publishing generated answers",
            ),
        ),
    }
}

} // verus!
