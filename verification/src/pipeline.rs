//! The stage verdicts of crawling, parsing and indexing, and the pipeline
//! that runs every stage in order and diagnoses the outcome.
use vstd::prelude::*;
use crate::diagnose::{diagnose, diagnosis_model, spec_diagnose};
use crate::generate::{citation_stage, synthesize, synthesize_stage};
use crate::generate::{citation_verdict, spec_answer, spec_cited, synthesis_verdict};
use crate::index::{
    chunk_model, chunks_from_parsed, chunks_model, lemma_total_tokens_prefix, spec_chunks_from_parsed,
    spec_document_chunks, total_tokens, Bm25Index, ChunkModel,
};
use crate::model::{
    spec_failure_name, Chunk, Corpus, Document, ParsedDocument, Query, ScoredChunk, StageResult,
    StageStatus, StageTrace,
};
use crate::parse::{is_parse_of, parse_documents, prefix, spec_split_sections};
use crate::rank::{evidence_of, rerank_stage, rerank_verdict, retrieval_stage, retrieval_verdict};
use crate::text::{spec_tokenize, tokenize};
use crate::text::{concat, decimal, digit_char, own, push_char, push_str, spec_decimal};

verus! {

/// Whether some document has the target id.
pub open spec fn has_target(docs: Seq<crate::model::Document>, target: Seq<char>) -> bool {
    exists|i: int| 0 <= i < docs.len() && docs[i].id@ == target
}

/// The crawl verdict on a corpus's documents.
pub open spec fn crawl_verdict(
    r: StageResult,
    docs: Seq<crate::model::Document>,
    target: Seq<char>,
) -> bool {
    &&& r.stage@ == "crawl"@
    &&& r.target_rank is None
    &&& if has_target(docs, target) {
        &&& r.status == StageStatus::Pass
        &&& r.target_present
        &&& evidence_of(r) == seq!["loaded "@ + spec_decimal(docs.len() as nat) + " documents"@]
    } else {
        &&& r.status == StageStatus::Fail
        &&& !r.target_present
        &&& evidence_of(r) == seq!["target document was not loaded into the corpus"@]
    }
}

/// Judges crawling: passes when the corpus holds the target document.
pub fn crawl_stage(corpus: &Corpus) -> (r: StageResult)
    ensures
        crawl_verdict(r, corpus.documents@, corpus.target_id@),
{
    if corpus.target().is_none() {
        let mut evidence: Vec<String> = Vec::new();
        evidence.push(own("target document was not loaded into the corpus"));
        assert(evidence.deep_view() =~= seq!["target document was not loaded into the corpus"@]);
        return StageResult::with_rank("crawl", StageStatus::Fail, None, evidence);
    }
    let mut line = own("loaded ");
    let n = decimal(corpus.documents.len());
    push_str(&mut line, n.as_str());
    push_str(&mut line, " documents");
    let mut evidence: Vec<String> = Vec::new();
    evidence.push(line);
    assert(evidence.deep_view() =~= seq![
        "loaded "@ + spec_decimal(corpus.documents@.len() as nat) + " documents"@,
    ]);
    StageResult::pass("crawl", evidence)
}

/// A number of hundredths written with two decimals, as `{:.2}` writes the
/// fraction it stands for.
pub open spec fn spec_two_decimals(h: nat) -> Seq<char> {
    spec_decimal(h / 100) + "."@ + seq![digit_char((h % 100) / 10), digit_char(h % 10)]
}

fn two_decimals(h: u32) -> (r: String)
    ensures
        r@ == spec_two_decimals(h as nat),
{
    let mut s = decimal((h / 100) as usize);
    push_str(&mut s, ".");
    let tens: u8 = ((h % 100) / 10) as u8;
    let ones: u8 = (h % 10) as u8;
    push_char(&mut s, (48u8 + tens) as char);
    push_char(&mut s, (48u8 + ones) as char);
    s
}

/// The position of the first parsed document with the given id.
pub open spec fn spec_find_parsed(parsed: Seq<ParsedDocument>, id: Seq<char>) -> Option<int>
    decreases parsed.len(),
{
    if parsed.len() == 0 {
        None
    } else {
        match spec_find_parsed(parsed.drop_last(), id) {
            Some(i) => Some(i),
            None => if parsed.last().document.id@ == id {
                Some(parsed.len() - 1)
            } else {
                None
            },
        }
    }
}

/// The evidence of the parse stage for a parsed target.
pub open spec fn spec_parse_evidence(p: ParsedDocument) -> Seq<Seq<char>> {
    let first = "parsed "@ + spec_decimal(p.sections@.len() as nat) + " sections; clarity score "@
        + spec_two_decimals(p.features.clarity_score as nat);
    if p.features.has_top_definition {
        seq![first]
    } else {
        seq![first, "no one-sentence definition detected near the top"@]
    }
}

/// The parse verdict on the parsed documents.
pub open spec fn parse_verdict(r: StageResult, parsed: Seq<ParsedDocument>, target: Seq<char>) -> bool {
    &&& r.stage@ == "parse"@
    &&& match spec_find_parsed(parsed, target) {
        Some(i) => {
            &&& r.status == (if parsed[i].features.has_top_definition {
                StageStatus::Pass
            } else {
                StageStatus::Partial
            })
            &&& r.target_rank == Some(1usize)
            &&& r.target_present
            &&& evidence_of(r) == spec_parse_evidence(parsed[i])
        },
        None => {
            &&& r.status == StageStatus::Fail
            &&& r.target_rank is None
            &&& !r.target_present
            &&& evidence_of(r) == seq!["target was unavailable after parsing"@]
        },
    }
}

/// Judges parsing: fails when the target was not parsed; otherwise ranks it
/// 1 and passes when a definition sentence leads it, partial when not.
pub fn parse_stage(parsed: &[ParsedDocument], target_id: &str) -> (r: StageResult)
    ensures
        parse_verdict(r, parsed@, target_id@),
{
    let t = own(target_id);
    let mut i: usize = 0;
    let mut found: Option<usize> = None;
    proof {
        assert(parsed@.take(0) =~= Seq::<ParsedDocument>::empty());
    }
    while i < parsed.len()
        invariant
            i <= parsed@.len(),
            t@ == target_id@,
            found == match spec_find_parsed(parsed@.take(i as int), target_id@) {
                Some(k) => Some(k as usize),
                None => None::<usize>,
            },
            spec_find_parsed(parsed@.take(i as int), target_id@) matches Some(k) ==> 0 <= k < i,
        decreases parsed@.len() - i,
    {
        proof {
            assert(parsed@.take(i + 1).drop_last() =~= parsed@.take(i as int));
        }
        if found.is_none() && parsed[i].document.id == t {
            found = Some(i);
        }
        i += 1;
    }
    assert(parsed@.take(parsed@.len() as int) =~= parsed@);
    match found {
        None => {
            let mut evidence: Vec<String> = Vec::new();
            evidence.push(own("target was unavailable after parsing"));
            assert(evidence.deep_view() =~= seq!["target was unavailable after parsing"@]);
            StageResult::with_rank("parse", StageStatus::Fail, None, evidence)
        },
        Some(k) => {
            let target = &parsed[k];
            let status = if target.features.has_top_definition {
                StageStatus::Pass
            } else {
                StageStatus::Partial
            };
            let mut line = own("parsed ");
            let n = decimal(target.sections.len());
            push_str(&mut line, n.as_str());
            push_str(&mut line, " sections; clarity score ");
            let c = two_decimals(target.features.clarity_score);
            push_str(&mut line, c.as_str());
            let mut evidence: Vec<String> = Vec::new();
            evidence.push(line);
            if !target.features.has_top_definition {
                evidence.push(own("no one-sentence definition detected near the top"));
            }
            assert(evidence.deep_view() =~= spec_parse_evidence(*target));
            StageResult::with_rank("parse", status, Some(1), evidence)
        },
    }
}

/// How many chunks belong to the document `id`.
pub open spec fn spec_count_chunks(chunks: Seq<crate::model::Chunk>, id: Seq<char>) -> nat
    decreases chunks.len(),
{
    if chunks.len() == 0 {
        0
    } else {
        spec_count_chunks(chunks.drop_last(), id) + (if chunks.last().document_id@ == id {
            1nat
        } else {
            0nat
        })
    }
}

proof fn lemma_count_chunks_bound(chunks: Seq<crate::model::Chunk>, id: Seq<char>)
    ensures
        spec_count_chunks(chunks, id) <= chunks.len(),
    decreases chunks.len(),
{
    if chunks.len() > 0 {
        lemma_count_chunks_bound(chunks.drop_last(), id);
    }
}

/// The index verdict on the indexed chunks.
pub open spec fn index_verdict(
    r: StageResult,
    chunks: Seq<crate::model::Chunk>,
    target: Seq<char>,
) -> bool {
    let n = spec_count_chunks(chunks, target);
    &&& r.stage@ == "index"@
    &&& if n == 0 {
        &&& r.status == StageStatus::Fail
        &&& r.target_rank is None
        &&& !r.target_present
        &&& evidence_of(r) == seq!["target produced no indexable chunks"@]
    } else {
        &&& r.status == StageStatus::Pass
        &&& r.target_rank == Some(1usize)
        &&& r.target_present
        &&& evidence_of(r) == seq!["target produced "@ + spec_decimal(n) + " indexable chunks"@]
    }
}

/// Judges indexing: passes, ranked 1, when the target has chunks, and fails
/// otherwise.
pub fn index_stage(index: &Bm25Index, target_id: &str) -> (r: StageResult)
    ensures
        index_verdict(r, index.spec_chunks(), target_id@),
{
    let chunks = index.chunks();
    let t = own(target_id);
    let mut count: usize = 0;
    let mut i: usize = 0;
    proof {
        assert(chunks@.take(0) =~= Seq::<crate::model::Chunk>::empty());
    }
    while i < chunks.len()
        invariant
            i <= chunks@.len(),
            t@ == target_id@,
            count == spec_count_chunks(chunks@.take(i as int), target_id@),
        decreases chunks@.len() - i,
    {
        proof {
            assert(chunks@.take(i + 1).drop_last() =~= chunks@.take(i as int));
            lemma_count_chunks_bound(chunks@.take(i as int), target_id@);
        }
        if chunks[i].document_id == t {
            count += 1;
        }
        i += 1;
    }
    assert(chunks@.take(chunks@.len() as int) =~= chunks@);
    if count == 0 {
        let mut evidence: Vec<String> = Vec::new();
        evidence.push(own("target produced no indexable chunks"));
        assert(evidence.deep_view() =~= seq!["target produced no indexable chunks"@]);
        return StageResult::with_rank("index", StageStatus::Fail, None, evidence);
    }
    let mut line = own("target produced ");
    let n = decimal(count);
    push_str(&mut line, n.as_str());
    push_str(&mut line, " indexable chunks");
    let mut evidence: Vec<String> = Vec::new();
    evidence.push(line);
    assert(evidence.deep_view() =~= seq![
        "target produced "@ + spec_decimal(count as nat) + " indexable chunks"@,
    ]);
    StageResult::with_rank("index", StageStatus::Pass, Some(1), evidence)
}

/// A one-line summary of a trace's diagnosis.
pub fn summary(trace: &StageTrace) -> (r: String)
    ensures
        r@ == match trace.diagnosis {
            Some(d) => spec_failure_name(d.primary_failure) + " at "@ + d.stage@,
            None => "no diagnosis"@,
        },
{
    match &trace.diagnosis {
        Some(d) => {
            let name = d.primary_failure.name();
            let mut s = concat(name.as_str(), " at ");
            push_str(&mut s, d.stage.as_str());
            s
        },
        None => own("no diagnosis"),
    }
}

// ---------------------------------------------------------------------------
// The whole pipeline
// ---------------------------------------------------------------------------

/// The chunks that parsing and chunking make of the documents.
pub open spec fn corpus_chunks(docs: Seq<Document>) -> Seq<ChunkModel>
    decreases docs.len(),
{
    if docs.len() == 0 {
        Seq::empty()
    } else {
        corpus_chunks(docs.drop_last()) + spec_document_chunks(
            docs.last(),
            spec_split_sections(docs.last().content@),
        )
    }
}

/// How many tokens the chunks' texts hold in all.
pub open spec fn model_tokens(models: Seq<ChunkModel>) -> nat
    decreases models.len(),
{
    if models.len() == 0 {
        0
    } else {
        model_tokens(models.drop_last()) + spec_tokenize(models.last().5).len()
    }
}

pub(crate) proof fn lemma_chunks_of_parsed(parsed: Seq<ParsedDocument>, docs: Seq<Document>)
    requires
        parsed.len() == docs.len(),
        forall|i: int| 0 <= i < parsed.len() ==> is_parse_of(#[trigger] parsed[i], docs[i]),
    ensures
        spec_chunks_from_parsed(parsed) == corpus_chunks(docs),
    decreases parsed.len(),
{
    if parsed.len() > 0 {
        let p = parsed.drop_last();
        let d = docs.drop_last();
        assert forall|i: int| 0 <= i < p.len() implies is_parse_of(#[trigger] p[i], d[i]) by {
            assert(is_parse_of(parsed[i], docs[i]));
        }
        lemma_chunks_of_parsed(p, d);
        assert(is_parse_of(parsed[parsed.len() - 1], docs[docs.len() - 1]));
    }
}

proof fn lemma_model_tokens(chunks: Seq<Chunk>)
    ensures
        total_tokens(chunks) == model_tokens(chunks_model(chunks)),
    decreases chunks.len(),
{
    if chunks.len() > 0 {
        lemma_model_tokens(chunks.drop_last());
        assert(chunks_model(chunks).drop_last() =~= chunks_model(chunks.drop_last()));
        assert(chunks_model(chunks).last() == chunk_model(chunks.last()));
    }
}

/// Whether the corpus's chunks hold few enough tokens in all for a
/// `usize` count of them.
pub fn pipeline_fits(corpus: &Corpus) -> (r: bool)
    ensures
        r == (model_tokens(corpus_chunks(corpus.documents@)) <= usize::MAX),
{
    let parsed = parse_documents(&corpus.documents);
    let chunks = chunks_from_parsed(&parsed);
    proof {
        lemma_chunks_of_parsed(parsed@, corpus.documents@);
        lemma_model_tokens(chunks@);
    }
    let mut total: usize = 0;
    let mut i: usize = 0;
    proof {
        assert(chunks@.take(0) =~= Seq::<Chunk>::empty());
    }
    while i < chunks.len()
        invariant
            i <= chunks@.len(),
            total == total_tokens(chunks@.take(i as int)),
            total_tokens(chunks@) == model_tokens(corpus_chunks(corpus.documents@)),
        decreases chunks@.len() - i,
    {
        let toks = tokenize(chunks[i].text.as_str());
        let n = toks.len();
        proof {
            assert(chunks@.take(i + 1).drop_last() =~= chunks@.take(i as int));
            assert(n == toks.deep_view().len());
            assert(total_tokens(chunks@.take(i + 1)) == total + n);
        }
        match total.checked_add(n) {
            Some(t) => total = t,
            None => {
                proof {
                    lemma_total_tokens_prefix(chunks@, i + 1);
                }
                return false;
            },
        }
        i += 1;
    }
    assert(chunks@.take(chunks@.len() as int) =~= chunks@);
    true
}

/// What a run makes of a query, the corpus's documents and a target, given
/// the parsed documents, the indexed chunks, and the lists that retrieval
/// and reranking returned: the query and target recorded, the seven stage
/// verdicts in order, the cited sources, and the diagnosis of the stages.
pub open spec fn run_outcome(
    query_text: Seq<char>,
    docs: Seq<Document>,
    target: Seq<char>,
    parsed: Seq<ParsedDocument>,
    chunks: Seq<Chunk>,
    retrieved: Seq<ScoredChunk>,
    reranked: Seq<ScoredChunk>,
    trace: StageTrace,
) -> bool {
    let stages = trace.stages@;
    let used = prefix(reranked, 3);
    &&& trace.query.text@ == query_text
    &&& trace.query.target_id@ == target
    &&& trace.target@ == target
    &&& stages.len() == 7
    &&& crawl_verdict(stages[0], docs, target)
    &&& parsed.len() == docs.len()
    &&& forall|i: int| 0 <= i < parsed.len() ==> is_parse_of(#[trigger] parsed[i], docs[i])
    &&& parse_verdict(stages[1], parsed, target)
    &&& chunks_model(chunks) == spec_chunks_from_parsed(parsed)
    &&& index_verdict(stages[2], chunks, target)
    &&& retrieval_verdict(stages[3], retrieved, target)
    &&& rerank_verdict(stages[4], retrieved, reranked, target)
    &&& synthesis_verdict(stages[5], spec_answer(query_text, used), spec_cited(used), target)
    &&& citation_verdict(stages[6], spec_cited(used), target)
    &&& trace.cited_sources.deep_view() == spec_cited(used)
    &&& trace.diagnosis matches Some(d) && diagnosis_model(d) == spec_diagnose(stages)
}

/// Whether `trace` is what a run on the query, the documents and the target
/// makes: with some parsed documents and index, retrieval called on the index,
/// the query and eight, reranking called on the query, the retrieved list and
/// the parsed documents, and the outcome fixed by those lists.
pub open spec fn is_run<R, K>(
    query_text: &str,
    docs: Seq<Document>,
    target: Seq<char>,
    retrieve: R,
    rerank: K,
    trace: StageTrace,
) -> bool where
    R: Fn(&Bm25Index, &str, usize) -> Vec<ScoredChunk>,
    K: Fn(&str, &Vec<ScoredChunk>, &Vec<ParsedDocument>) -> Vec<ScoredChunk>,
 {
    exists|
        parsed: Vec<ParsedDocument>,
        index: Bm25Index,
        retrieved: Vec<ScoredChunk>,
        reranked: Vec<ScoredChunk>,
    |
        #![trigger retrieve.ensures((&index, query_text, 8usize), retrieved), rerank.ensures((query_text, &retrieved, &parsed), reranked)]
        {
            &&& retrieve.ensures((&index, query_text, 8usize), retrieved)
            &&& rerank.ensures((query_text, &retrieved, &parsed), reranked)
            &&& run_outcome(
                query_text@,
                docs,
                target,
                parsed@,
                index.spec_chunks(),
                retrieved@,
                reranked@,
                trace,
            )
        }
}

/// Runs every stage on a corpus for a query: crawl, parse, index, retrieve
/// (eight results), rerank, synthesize (from the first three) and cite; the
/// trace ends with the diagnosis of its stages. `retrieve` and `rerank` do
/// the scoring.
pub fn run_pipeline<R, K>(
    query_text: &str,
    corpus: Corpus,
    target_override: Option<&str>,
    retrieve: R,
    rerank: K,
) -> (trace: StageTrace) where
    R: Fn(&Bm25Index, &str, usize) -> Vec<ScoredChunk>,
    K: Fn(&str, &Vec<ScoredChunk>, &Vec<ParsedDocument>) -> Vec<ScoredChunk>,

    requires
        model_tokens(corpus_chunks(corpus.documents@)) <= usize::MAX,
        forall|i: &Bm25Index, q: &str, k: usize| retrieve.requires((i, q, k)),
        forall|q: &str, r: &Vec<ScoredChunk>, p: &Vec<ParsedDocument>| rerank.requires((q, r, p)),
    ensures
        is_run(
            query_text,
            corpus.documents@,
            match target_override {
                Some(t) => t@,
                None => corpus.target_id@,
            },
            retrieve,
            rerank,
            trace,
        ),
{
    let mut corpus = corpus;
    match target_override {
        Some(t) => {
            corpus.target_id = own(t);
        },
        None => {},
    }
    let target_id = corpus.target_id.clone();
    let mut stages: Vec<StageResult> = Vec::new();
    stages.push(crawl_stage(&corpus));

    let parsed = parse_documents(&corpus.documents);
    stages.push(parse_stage(parsed.as_slice(), target_id.as_str()));

    let chunks = chunks_from_parsed(&parsed);
    proof {
        lemma_chunks_of_parsed(parsed@, corpus.documents@);
        lemma_model_tokens(chunks@);
    }
    let index = Bm25Index::new(chunks);
    stages.push(index_stage(&index, target_id.as_str()));

    let retrieved = retrieve(&index, query_text, 8);
    stages.push(retrieval_stage(retrieved.as_slice(), target_id.as_str()));

    let reranked = rerank(query_text, &retrieved, &parsed);
    stages.push(rerank_stage(retrieved.as_slice(), reranked.as_slice(), target_id.as_str()));

    let answer = synthesize(query_text, reranked.as_slice(), 3);
    stages.push(synthesize_stage(&answer, target_id.as_str()));
    stages.push(citation_stage(&answer, target_id.as_str()));

    let mut trace = StageTrace {
        query: Query { text: own(query_text), target_id: target_id.clone() },
        target: target_id,
        stages,
        cited_sources: answer.cited_sources,
        diagnosis: None,
    };
    let diagnosis = diagnose(&trace);
    trace.diagnosis = Some(diagnosis);
    proof {
        assert(chunks_model(index.spec_chunks()) == spec_chunks_from_parsed(parsed@));
    }
    trace
}

} // verus!
