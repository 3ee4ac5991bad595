//! Properties that hold across the stages of the pipeline.
use vstd::prelude::*;
use crate::corpus::{entry_model, spec_build, spec_entries, spec_read_all, spec_read_entry, DocModel, CorpusFailure, FileProbe, CorpusManifest};
use crate::diagnose::{
    all_passed_diagnosis, diagnosis_model, is_failing, lemma_first_failing, spec_diagnose, spec_failure_for_stage,
    spec_first_failing, spec_repair_plan,
};
use crate::generate::{citation_verdict, spec_cited, synthesis_verdict};
use crate::index::{docs_containing, lemma_docs_containing_bound, window, window_count, chunk_tokens};
use crate::model::{
    Chunk, Document, FailureClass, ParsedDocument, ScoredChunk, SourceKind, StageResult, StageStatus,
    StageTrace,
};
use crate::parse::{push_section_spec, scan_lines, spec_clarity_score, spec_split_sections, ScanState};
use crate::text::{
    alphanumeric, ascii_lowercase, is_ascii_alnum, is_ascii_text, longer_than_one_byte, lowercase,
    spec_join,
};
use crate::text::{spec_lines, spec_tokenize, tokens_of_runs, word_runs};
use crate::pipeline::{
    corpus_chunks, crawl_verdict, index_verdict, is_run, lemma_chunks_of_parsed, parse_verdict,
    run_outcome, spec_count_chunks,
    spec_find_parsed,
};
use crate::index::{chunks_model, Bm25Index};
use crate::parse::{is_parse_of, sections_model};
use crate::rank::{
    evidence_of, is_rank_order, is_ranking, ranked_before, rerank_verdict, retrieval_verdict,
    spec_rank_of,
};

verus! {

/// The diagnosis names the first stage that did not pass: its name, the
/// failure class of that name, its evidence and the repair plan of that
/// class, with every earlier stage passed. When every stage passed, the
/// failure is factuality at stage "none".
pub proof fn law_diagnosis_names_first_failing_stage(stages: Seq<StageResult>)
    ensures
        match spec_first_failing(stages) {
            Some(i) => {
                &&& 0 <= i < stages.len()
                &&& is_failing(stages[i])
                &&& forall|j: int| 0 <= j < i ==> !is_failing(#[trigger] stages[j])
                &&& spec_diagnose(stages).0 == spec_failure_for_stage(stages[i].stage@)
                &&& spec_diagnose(stages).1 == stages[i].stage@
                &&& spec_diagnose(stages).2 == stages[i].evidence.deep_view()
                &&& spec_diagnose(stages).3 == spec_repair_plan(spec_diagnose(stages).0)
            },
            None => {
                &&& forall|j: int| 0 <= j < stages.len() ==> !is_failing(#[trigger] stages[j])
                &&& spec_diagnose(stages) == all_passed_diagnosis()
            },
        },
{
    lemma_first_failing(stages);
}

/// A ranking keeps at most `top_k` items, numbers them 1, 2, 3, ... in
/// order, orders them by non-increasing score, and takes each of them, with
/// its chunk, score and evidence, from the input.
pub proof fn law_ranking_is_sorted_and_numbered(
    items: Seq<ScoredChunk>,
    top_k: nat,
    result: Seq<ScoredChunk>,
)
    requires
        is_ranking(items, top_k, result),
    ensures
        result.len() <= top_k,
        result.len() <= items.len(),
        forall|k: int| 0 <= k < result.len() ==> #[trigger] result[k].rank == k + 1,
        forall|k: int, l: int|
            0 <= k < l < result.len() ==> #[trigger] result[k].score >= #[trigger] result[l].score,
        forall|k: int|
            0 <= k < result.len() ==> exists|j: int|
                0 <= j < items.len() && #[trigger] result[k].chunk == items[j].chunk
                    && result[k].score == items[j].score && result[k].evidence
                    == items[j].evidence,
{
    let perm = choose|perm: Seq<int>|
        {
            &&& is_rank_order(items, perm)
            &&& result.len() == (if top_k < items.len() {
                top_k
            } else {
                items.len()
            })
            &&& forall|k: int|
                0 <= k < result.len() ==> #[trigger] result[k].rank == k + 1 && result[k] == (
                ScoredChunk { rank: result[k].rank, ..items[perm[k]] })
        };
    assert forall|k: int| 0 <= k < result.len() implies #[trigger] result[k].rank == k + 1 by {
    }
    assert forall|k: int, l: int|
        0 <= k < l < result.len() implies #[trigger] result[k].score >= #[trigger] result[l].score by {
        assert(result[k] == (ScoredChunk { rank: result[k].rank, ..items[perm[k]] }));
        assert(result[l] == (ScoredChunk { rank: result[l].rank, ..items[perm[l]] }));
        assert(ranked_before(items, perm[k], perm[l]));
    }
    assert forall|k: int| 0 <= k < result.len() implies exists|j: int|
        0 <= j < items.len() && #[trigger] result[k].chunk == items[j].chunk && result[k].score
            == items[j].score && result[k].evidence == items[j].evidence by {
        assert(result[k] == (ScoredChunk { rank: result[k].rank, ..items[perm[k]] }));
        assert(0 <= perm[k] < items.len());
    }
}

/// The cited documents are the document ids of the used chunks, each cited
/// once: no id twice, no more ids than chunks, every id from some chunk, and
/// every chunk's id cited.
pub proof fn law_citations_are_distinct_chunk_ids(chunks: Seq<ScoredChunk>)
    ensures
        spec_cited(chunks).len() <= chunks.len(),
        forall|a: int, b: int|
            0 <= a < b < spec_cited(chunks).len() ==> spec_cited(chunks)[a] != spec_cited(
                chunks,
            )[b],
        forall|a: int|
            #![trigger spec_cited(chunks)[a]]
            0 <= a < spec_cited(chunks).len() ==> exists|j: int|
                0 <= j < chunks.len() && #[trigger] chunks[j].chunk.document_id@ == spec_cited(
                    chunks,
                )[a],
        forall|j: int|
            0 <= j < chunks.len() ==> spec_cited(chunks).contains(
                #[trigger] chunks[j].chunk.document_id@,
            ),
    decreases chunks.len(),
{
    if chunks.len() > 0 {
        let p = chunks.drop_last();
        law_citations_are_distinct_chunk_ids(p);
        let c = spec_cited(p);
        let id = chunks.last().chunk.document_id@;
        assert forall|a: int|
            #![trigger spec_cited(chunks)[a]]
            0 <= a < spec_cited(chunks).len() implies exists|j: int|
                0 <= j < chunks.len() && #[trigger] chunks[j].chunk.document_id@ == spec_cited(
                    chunks,
                )[a] by {
            if a < c.len() {
                let j = choose|j: int|
                    0 <= j < p.len() && #[trigger] p[j].chunk.document_id@ == c[a];
                assert(chunks[j] == p[j]);
            } else {
                assert(chunks[chunks.len() - 1].chunk.document_id@ == id);
            }
        }
        assert forall|j: int| 0 <= j < chunks.len() implies spec_cited(chunks).contains(
            #[trigger] chunks[j].chunk.document_id@,
        ) by {
            if j < p.len() {
                assert(chunks[j] == p[j]);
                assert(p[j].chunk.document_id@ == chunks[j].chunk.document_id@);
                assert(c.contains(p[j].chunk.document_id@));
                if !c.contains(id) {
                    let a = choose|a: int| 0 <= a < c.len() && c[a] == p[j].chunk.document_id@;
                    assert(spec_cited(chunks)[a] == c[a]);
                }
            } else {
                if !c.contains(id) {
                    assert(spec_cited(chunks)[c.len() as int] == id);
                }
            }
        }
    }
}

/// The windows of ninety tokens taken in order, concatenated.
pub open spec fn concat_windows(tokens: Seq<Seq<char>>, w: nat) -> Seq<Seq<char>>
    decreases w,
{
    if w == 0 {
        Seq::empty()
    } else {
        concat_windows(tokens, (w - 1) as nat) + window(tokens, w - 1)
    }
}

proof fn lemma_concat_windows(tokens: Seq<Seq<char>>, w: nat)
    requires
        w == 0 || 90 * (w - 1) < tokens.len(),
    ensures
        concat_windows(tokens, w) == tokens.take(if 90 * w < tokens.len() {
            (90 * w) as int
        } else {
            tokens.len() as int
        }),
    decreases w,
{
    if w == 0 {
        assert(tokens.take(0) =~= Seq::<Seq<char>>::empty());
    } else {
        if w >= 2 {
            assert(90 * (w - 2) < 90 * (w - 1)) by (nonlinear_arith)
                requires
                    w >= 2,
            ;
        }
        lemma_concat_windows(tokens, (w - 1) as nat);
        let start = 90 * (w - 1);
        assert(90 * (w - 1) + 90 == 90 * w) by (nonlinear_arith);
        assert(start < tokens.len());
        let end = if 90 * w < tokens.len() {
            (90 * w) as int
        } else {
            tokens.len() as int
        };
        assert(tokens.take(start) + tokens.subrange(start, end) =~= tokens.take(end));
    }
}

/// Chunking loses no token and repeats none: the windows of a section's
/// tokens, concatenated, are exactly its tokens, and each window holds
/// between one and ninety of them.
pub proof fn law_windows_cover_tokens(tokens: Seq<Seq<char>>)
    ensures
        concat_windows(tokens, window_count(tokens.len())) == tokens,
        forall|w: int|
            0 <= w < window_count(tokens.len()) ==> 1 <= #[trigger] window(tokens, w).len() <= 90,
{
    let n = tokens.len();
    let c = window_count(n);
    assert(c == 0 || 90 * (c - 1) < n) by (nonlinear_arith)
        requires
            c == (n + 89) / 90,
    ;
    assert(90 * c >= n) by (nonlinear_arith)
        requires
            c == (n + 89) / 90,
    ;
    lemma_concat_windows(tokens, c);
    assert(tokens.take(n as int) =~= tokens);
    assert forall|w: int| 0 <= w < window_count(tokens.len()) implies 1 <= #[trigger] window(
        tokens,
        w,
    ).len() <= 90 by {
        assert(90 * w < n) by (nonlinear_arith)
            requires
                0 <= w < c,
                c == (n + 89) / 90,
        ;
    }
}

/// The clarity score lies between 20 and 100 hundredths.
pub proof fn law_clarity_score_range(has_definition: bool, install_position: Option<nat>, terms: nat)
    ensures
        20 <= spec_clarity_score(has_definition, install_position, terms) <= 100,
{
}

/// Every stage of a run records evidence: each verdict carries at least one
/// evidence line.
pub proof fn law_every_stage_has_evidence(
    stages: Seq<StageResult>,
    docs: Seq<Document>,
    parsed: Seq<ParsedDocument>,
    chunks: Seq<Chunk>,
    retrieved: Seq<ScoredChunk>,
    reranked: Seq<ScoredChunk>,
    answer: Seq<char>,
    cited: Seq<Seq<char>>,
    target: Seq<char>,
)
    requires
        stages.len() == 7,
        crawl_verdict(stages[0], docs, target),
        parse_verdict(stages[1], parsed, target),
        index_verdict(stages[2], chunks, target),
        retrieval_verdict(stages[3], retrieved, target),
        rerank_verdict(stages[4], retrieved, reranked, target),
        synthesis_verdict(stages[5], answer, cited, target),
        citation_verdict(stages[6], cited, target),
    ensures
        forall|i: int| 0 <= i < 7 ==> #[trigger] evidence_of(stages[i]).len() >= 1,
        forall|i: int|
            0 <= i < 7 ==> (#[trigger] stages[i]).target_present == stages[i].target_rank is Some
                || i == 0 || i == 5,
{
    assert(evidence_of(stages[1]).len() >= 1) by {
        match crate::pipeline::spec_find_parsed(parsed, target) {
            Some(k) => {},
            None => {},
        }
    }
}

/// A retrieval or rerank rank is the rank of the target's first chunk in
/// the list, and there is none exactly when no chunk is the target's.
pub proof fn law_rank_is_first_target_chunk(items: Seq<ScoredChunk>, target: Seq<char>)
    ensures
        match spec_rank_of(items, target) {
            Some(r) => exists|i: int|
                0 <= i < items.len() && #[trigger] items[i].chunk.document_id@ == target
                    && items[i].rank == r && forall|j: int|
                    0 <= j < i ==> items[j].chunk.document_id@ != target,
            None => forall|i: int|
                0 <= i < items.len() ==> #[trigger] items[i].chunk.document_id@ != target,
        },
    decreases items.len(),
{
    if items.len() > 0 {
        let p = items.drop_last();
        law_rank_is_first_target_chunk(p, target);
        match spec_rank_of(p, target) {
            Some(r) => {
                let i = choose|i: int|
                    0 <= i < p.len() && #[trigger] p[i].chunk.document_id@ == target && p[i].rank
                        == r && forall|j: int| 0 <= j < i ==> p[j].chunk.document_id@ != target;
                assert(items[i] == p[i]);
                assert forall|j: int| 0 <= j < i implies items[j].chunk.document_id@ != target by {
                    assert(items[j] == p[j]);
                }
            },
            None => {
                assert forall|j: int| 0 <= j < p.len() implies items[j].chunk.document_id@
                    != target by {
                    assert(items[j] == p[j]);
                }
                if items.last().chunk.document_id@ == target {
                    assert(items[items.len() - 1].chunk.document_id@ == target);
                }
            },
        }
    }
}

/// A term's document frequency never exceeds the number of chunks, and is
/// positive when some chunk holds the term.
pub proof fn law_document_frequency_bounds(chunks: Seq<Chunk>, t: Seq<char>)
    ensures
        docs_containing(chunks, t) <= chunks.len(),
        (exists|i: int| 0 <= i < chunks.len() && #[trigger] chunk_tokens(chunks[i]).contains(t))
            ==> docs_containing(chunks, t) >= 1,
    decreases chunks.len(),
{
    lemma_docs_containing_bound(chunks, t);
    if chunks.len() > 0 {
        law_document_frequency_bounds(chunks.drop_last(), t);
        if exists|i: int| 0 <= i < chunks.len() && #[trigger] chunk_tokens(chunks[i]).contains(t) {
            let i = choose|i: int|
                0 <= i < chunks.len() && #[trigger] chunk_tokens(chunks[i]).contains(t);
            if i < chunks.len() - 1 {
                assert(chunks.drop_last()[i] == chunks[i]);
            }
        }
    }
}

proof fn lemma_read_all_roles(
    probes: Seq<FileProbe>,
    base: Seq<char>,
    entries: Seq<((Seq<char>, Seq<char>, Seq<char>), SourceKind)>,
)
    ensures
        spec_read_all(probes, base, entries) matches Ok(docs) ==> {
            &&& docs.len() == entries.len()
            &&& forall|i: int|
                0 <= i < docs.len() ==> (#[trigger] docs[i]).3 == entries[i].1 && docs[i].0
                    == entries[i].0.0
        },
    decreases entries.len(),
{
    if entries.len() > 0 {
        lemma_read_all_roles(probes, base, entries.drop_last());
    }
}

/// A built corpus holds one document per manifest entry: the target first,
/// under the target's id, then the competitors, then the distractors, each
/// with its role and its entry's id.
pub proof fn law_corpus_puts_target_first(
    probes: Seq<FileProbe>,
    base: Seq<char>,
    m: CorpusManifest,
)
    ensures
        spec_build(probes, base, m) matches Ok((target_id, docs)) ==> {
            let c = m.competitors@.len() as int;
            &&& target_id == m.target.id@
            &&& docs.len() == 1 + c + m.distractors@.len()
            &&& docs[0].3 == SourceKind::Target
            &&& docs[0].0 == m.target.id@
            &&& forall|i: int|
                0 <= i < c ==> (#[trigger] docs[1 + i]).3 == SourceKind::Competitor && docs[1
                    + i].0 == m.competitors@[i].id@
            &&& forall|i: int|
                0 <= i < m.distractors@.len() ==> (#[trigger] docs[1 + c + i]).3
                    == SourceKind::Distractor && docs[1 + c + i].0 == m.distractors@[i].id@
        },
{
    let entries = spec_entries(m);
    lemma_read_all_roles(probes, base, entries);
    let c = m.competitors@.len() as int;
    assert forall|i: int| 0 <= i < c implies entries[1 + i] == (
        entry_model(m.competitors@[i]),
        SourceKind::Competitor,
    ) by {}
    assert forall|i: int| 0 <= i < m.distractors@.len() implies entries[1 + c + i] == (
        entry_model(m.distractors@[i]),
        SourceKind::Distractor,
    ) by {}
}

/// Whether every closed section of a scan state, and the open one, has a
/// level from 1 to 6, and every closed section has text.
pub open spec fn scan_sections_well_formed(st: ScanState) -> bool {
    &&& 1 <= st.2 <= 6
    &&& forall|i: int|
        0 <= i < st.0.len() ==> 1 <= (#[trigger] st.0[i]).1 <= 6 && st.0[i].2.len() > 0
}

proof fn lemma_scan_well_formed(lines: Seq<Seq<char>>)
    ensures
        scan_sections_well_formed(scan_lines(lines)),
    decreases lines.len(),
{
    if lines.len() > 0 {
        lemma_scan_well_formed(lines.drop_last());
    }
}

/// Every section has a heading level from 1 to 6, and every section has
/// text, except the single "Overview" section that holds a text without
/// any.
pub proof fn law_sections_are_leveled_and_hold_text(content: Seq<char>)
    ensures
        spec_split_sections(content).len() >= 1,
        forall|i: int|
            0 <= i < spec_split_sections(content).len() ==> 1 <= (#[trigger] spec_split_sections(
                content,
            )[i]).1 <= 6,
        forall|i: int|
            0 <= i < spec_split_sections(content).len() ==> (#[trigger] spec_split_sections(
                content,
            )[i]).2.len() > 0 || spec_split_sections(content) == seq![("Overview"@, 1nat, content)],
{
    let st = scan_lines(spec_lines(content));
    lemma_scan_well_formed(spec_lines(content));
    let secs = push_section_spec(st.0, st.1, st.2, st.3);
    assert forall|i: int| 0 <= i < secs.len() implies 1 <= (#[trigger] secs[i]).1 <= 6 && secs[i].2.len()
        > 0 by {
        if i < st.0.len() {
            assert(secs[i] == st.0[i]);
        }
    }
}

// ---------------------------------------------------------------------------
// Tokenizing
// ---------------------------------------------------------------------------

proof fn lemma_word_runs_nonempty(s: Seq<char>)
    ensures
        word_runs(s).len() >= 1,
    decreases s.len(),
{
    if s.len() > 0 {
        lemma_word_runs_nonempty(s.drop_last());
    }
}

proof fn lemma_word_runs_split(a: Seq<char>, c: char, b: Seq<char>)
    requires
        !alphanumeric(c),
    ensures
        word_runs(a + seq![c] + b) == word_runs(a) + word_runs(b),
    decreases b.len(),
{
    let s = a + seq![c] + b;
    if b.len() == 0 {
        assert(s.drop_last() =~= a);
        assert(word_runs(b) =~= seq![Seq::<char>::empty()]);
        assert(word_runs(s) =~= word_runs(a) + word_runs(b));
    } else {
        let b1 = b.drop_last();
        let x = b.last();
        lemma_word_runs_split(a, c, b1);
        lemma_word_runs_nonempty(b1);
        assert(s.drop_last() =~= a + seq![c] + b1);
        assert(s.last() == x);
        let wa = word_runs(a);
        let q = word_runs(b1);
        if alphanumeric(x) {
            assert(word_runs(s) =~= wa + q.update(q.len() - 1, q.last().push(x)));
        } else {
            assert(word_runs(s) =~= wa + q.push(Seq::empty()));
        }
    }
}

proof fn lemma_tokens_of_runs_append(r1: Seq<Seq<char>>, r2: Seq<Seq<char>>)
    ensures
        tokens_of_runs(r1 + r2) == tokens_of_runs(r1) + tokens_of_runs(r2),
    decreases r2.len(),
{
    if r2.len() == 0 {
        assert(r1 + r2 =~= r1);
        assert(tokens_of_runs(r1) + tokens_of_runs(r2) =~= tokens_of_runs(r1));
    } else {
        lemma_tokens_of_runs_append(r1, r2.drop_last());
        assert((r1 + r2).drop_last() =~= r1 + r2.drop_last());
        assert((r1 + r2).last() == r2.last());
        let t1 = tokens_of_runs(r1);
        let t2 = tokens_of_runs(r2.drop_last());
        assert((t1 + t2).push(crate::text::lowercase(r2.last())) =~= t1 + t2.push(
            crate::text::lowercase(r2.last()),
        ));
    }
}

/// Tokenizing two texts joined at a character that is not alphanumeric gives
/// the tokens of the first text followed by those of the second.
pub proof fn law_tokenize_splits_at_separators(a: Seq<char>, c: char, b: Seq<char>)
    requires
        !alphanumeric(c),
    ensures
        spec_tokenize(a + seq![c] + b) == spec_tokenize(a) + spec_tokenize(b),
{
    lemma_word_runs_split(a, c, b);
    lemma_tokens_of_runs_append(word_runs(a), word_runs(b));
}

/// Whether every character of `w` is an ASCII letter or digit.
pub open spec fn all_ascii_alnum(w: Seq<char>) -> bool {
    forall|j: int| 0 <= j < w.len() ==> is_ascii_alnum(#[trigger] w[j])
}

/// Whether `c` is a small ASCII letter or a digit.
pub open spec fn is_lower_alnum(c: char) -> bool {
    let n = c as u32;
    (0x30 <= n <= 0x39) || (0x61 <= n <= 0x7a)
}

/// Whether `t` is at least two characters long and made of small ASCII
/// letters and digits.
pub open spec fn lower_alnum_token(t: Seq<char>) -> bool {
    &&& t.len() >= 2
    &&& forall|j: int| 0 <= j < t.len() ==> is_lower_alnum(#[trigger] t[j])
}

proof fn lemma_runs_of_ascii(s: Seq<char>)
    requires
        is_ascii_text(s),
    ensures
        forall|k: int| 0 <= k < word_runs(s).len() ==> all_ascii_alnum(#[trigger] word_runs(s)[k]),
    decreases s.len(),
{
    if s.len() > 0 {
        let d = s.drop_last();
        assert forall|i: int| 0 <= i < d.len() implies crate::text::is_ascii_char(#[trigger] d[i]) by {
            assert(crate::text::is_ascii_char(s[i]));
        }
        lemma_runs_of_ascii(d);
        lemma_word_runs_nonempty(d);
        let p = word_runs(d);
        let x = s.last();
        assert(crate::text::is_ascii_char(s[s.len() - 1]));
        if alphanumeric(x) {
            let w = p.last().push(x);
            assert(all_ascii_alnum(p[p.len() - 1]));
            assert forall|j: int| 0 <= j < w.len() implies is_ascii_alnum(#[trigger] w[j]) by {
                if j < w.len() - 1 {
                    assert(w[j] == p[p.len() - 1][j]);
                }
            }
            assert forall|k: int| 0 <= k < word_runs(s).len() implies all_ascii_alnum(
                #[trigger] word_runs(s)[k],
            ) by {
                if k < p.len() - 1 {
                    assert(word_runs(s)[k] == p[k]);
                }
            }
        } else {
            assert forall|k: int| 0 <= k < word_runs(s).len() implies all_ascii_alnum(
                #[trigger] word_runs(s)[k],
            ) by {
                if k < p.len() {
                    assert(word_runs(s)[k] == p[k]);
                }
            }
        }
    }
}

proof fn lemma_lowercase_of_alnum(w: Seq<char>)
    requires
        all_ascii_alnum(w),
    ensures
        lowercase(w) == ascii_lowercase(w),
        forall|j: int| 0 <= j < w.len() ==> is_lower_alnum(#[trigger] lowercase(w)[j]),
        lowercase(w).len() == w.len(),
{
    assert forall|i: int| 0 <= i < w.len() implies crate::text::is_ascii_char(#[trigger] w[i]) by {
        assert(is_ascii_alnum(w[i]));
    }
    assert forall|j: int| 0 <= j < w.len() implies is_lower_alnum(#[trigger] lowercase(w)[j]) by {
        assert(is_ascii_alnum(w[j]));
        assert(lowercase(w)[j] == crate::text::ascii_lower_char(w[j]));
    }
}

proof fn lemma_tokens_of_alnum_runs(runs: Seq<Seq<char>>)
    requires
        forall|k: int| 0 <= k < runs.len() ==> all_ascii_alnum(#[trigger] runs[k]),
    ensures
        forall|k: int|
            0 <= k < tokens_of_runs(runs).len() ==> lower_alnum_token(#[trigger] tokens_of_runs(runs)[k]),
    decreases runs.len(),
{
    if runs.len() > 0 {
        let r = runs.drop_last();
        assert forall|k: int| 0 <= k < r.len() implies all_ascii_alnum(#[trigger] r[k]) by {
            assert(all_ascii_alnum(runs[k]));
        }
        lemma_tokens_of_alnum_runs(r);
        let w = runs.last();
        let rest = tokens_of_runs(r);
        assert(all_ascii_alnum(runs[runs.len() - 1]));
        if longer_than_one_byte(w) {
            lemma_lowercase_of_alnum(w);
            if w.len() == 1 {
                assert(is_ascii_alnum(w[0]));
            }
            assert(lower_alnum_token(lowercase(w)));
            assert(tokens_of_runs(runs) == rest.push(lowercase(w)));
            assert forall|k: int| 0 <= k < tokens_of_runs(runs).len() implies lower_alnum_token(
                #[trigger] tokens_of_runs(runs)[k],
            ) by {
                if k < rest.len() {
                    assert(tokens_of_runs(runs)[k] == rest[k]);
                }
            }
        } else {
            assert(tokens_of_runs(runs) == rest);
        }
    }
}

proof fn lemma_word_runs_of_word(w: Seq<char>)
    requires
        forall|j: int| 0 <= j < w.len() ==> alphanumeric(#[trigger] w[j]),
    ensures
        word_runs(w) == seq![w],
    decreases w.len(),
{
    if w.len() > 0 {
        let d = w.drop_last();
        assert forall|j: int| 0 <= j < d.len() implies alphanumeric(#[trigger] d[j]) by {
            assert(alphanumeric(w[j]));
        }
        lemma_word_runs_of_word(d);
        assert(alphanumeric(w[w.len() - 1]));
        assert(d.push(w.last()) =~= w);
        assert(word_runs(w) =~= seq![w]);
    } else {
        assert(w =~= Seq::<char>::empty());
    }
}

proof fn lemma_tokenize_token(t: Seq<char>)
    requires
        lower_alnum_token(t),
    ensures
        spec_tokenize(t) == seq![t],
{
    assert forall|j: int| 0 <= j < t.len() implies alphanumeric(#[trigger] t[j]) by {
        assert(is_lower_alnum(t[j]));
    }
    lemma_word_runs_of_word(t);
    assert forall|j: int| 0 <= j < t.len() implies is_ascii_alnum(#[trigger] t[j]) by {
        assert(is_lower_alnum(t[j]));
    }
    lemma_lowercase_of_alnum(t);
    assert forall|j: int| 0 <= j < t.len() implies ascii_lowercase(t)[j] == t[j] by {
        assert(is_lower_alnum(t[j]));
    }
    assert(ascii_lowercase(t) =~= t);
    assert(lowercase(t) == t);
    assert(longer_than_one_byte(t));
    let runs = seq![t];
    assert(runs.drop_last() =~= Seq::<Seq<char>>::empty());
    assert(runs.last() == t);
    assert(tokens_of_runs(runs.drop_last()) == Seq::<Seq<char>>::empty());
    assert(tokens_of_runs(runs) == Seq::<Seq<char>>::empty().push(t));
    assert(Seq::<Seq<char>>::empty().push(t) =~= seq![t]);
}

proof fn lemma_tokenize_joined(ts: Seq<Seq<char>>)
    requires
        forall|k: int| 0 <= k < ts.len() ==> lower_alnum_token(#[trigger] ts[k]),
    ensures
        spec_tokenize(spec_join(ts, " "@)) == ts,
    decreases ts.len(),
{
    reveal_strlit(" ");
    if ts.len() == 0 {
        let e = Seq::<char>::empty();
        assert(spec_join(ts, " "@) == e);
        assert(word_runs(e) == seq![e]);
        assert(seq![e].drop_last() =~= Seq::<Seq<char>>::empty());
        assert(!longer_than_one_byte(seq![e].last()));
        assert(tokens_of_runs(seq![e]) == tokens_of_runs(Seq::<Seq<char>>::empty()));
        assert(ts =~= Seq::<Seq<char>>::empty());
    } else if ts.len() == 1 {
        assert(lower_alnum_token(ts[0]));
        lemma_tokenize_token(ts[0]);
        assert(ts =~= seq![ts[0]]);
    } else {
        let r = ts.drop_last();
        assert forall|k: int| 0 <= k < r.len() implies lower_alnum_token(#[trigger] r[k]) by {
            assert(lower_alnum_token(ts[k]));
        }
        lemma_tokenize_joined(r);
        assert(lower_alnum_token(ts[ts.len() - 1]));
        lemma_tokenize_token(ts.last());
        assert(" "@ =~= seq![' ']);
        let j = spec_join(r, " "@);
        assert(spec_join(ts, " "@) == j + " "@ + ts.last());
        assert(spec_join(ts, " "@) == j + seq![' '] + ts.last());
        assert(!alphanumeric(' '));
        law_tokenize_splits_at_separators(j, ' ', ts.last());
        assert(r + seq![ts.last()] =~= ts);
    }
}

/// On ASCII text every token is at least two characters of small letters and
/// digits, and tokenizing the tokens joined with spaces gives them back.
pub proof fn law_ascii_tokens_are_lower_alnum_and_stable(s: Seq<char>)
    requires
        is_ascii_text(s),
    ensures
        forall|k: int|
            0 <= k < spec_tokenize(s).len() ==> lower_alnum_token(#[trigger] spec_tokenize(s)[k]),
        spec_tokenize(spec_join(spec_tokenize(s), " "@)) == spec_tokenize(s),
{
    lemma_runs_of_ascii(s);
    lemma_tokens_of_alnum_runs(word_runs(s));
    lemma_tokenize_joined(spec_tokenize(s));
}

// ---------------------------------------------------------------------------
// A run is fixed by its inputs
// ---------------------------------------------------------------------------

/// A stage verdict as plain values: stage, status, presence, rank, evidence.
pub open spec fn stage_view(s: StageResult) -> (
    Seq<char>,
    StageStatus,
    bool,
    Option<usize>,
    Seq<Seq<char>>,
) {
    (s.stage@, s.status, s.target_present, s.target_rank, evidence_of(s))
}

/// A trace as plain values: query, target, stage verdicts, cited sources and
/// diagnosis.
pub open spec fn trace_view(t: StageTrace) -> (
    Seq<char>,
    Seq<char>,
    Seq<char>,
    Seq<(Seq<char>, StageStatus, bool, Option<usize>, Seq<Seq<char>>)>,
    Seq<Seq<char>>,
    Option<(FailureClass, Seq<char>, Seq<Seq<char>>, (Seq<char>, Seq<Seq<char>>))>,
) {
    (
        t.query.text@,
        t.query.target_id@,
        t.target@,
        t.stages@.map_values(|s: StageResult| stage_view(s)),
        t.cited_sources.deep_view(),
        match t.diagnosis {
            Some(d) => Some(diagnosis_model(d)),
            None => None,
        },
    )
}

proof fn lemma_find_parsed_same(
    p1: Seq<ParsedDocument>,
    p2: Seq<ParsedDocument>,
    docs: Seq<Document>,
    id: Seq<char>,
)
    requires
        p1.len() == docs.len(),
        p2.len() == docs.len(),
        forall|i: int| 0 <= i < p1.len() ==> is_parse_of(#[trigger] p1[i], docs[i]),
        forall|i: int| 0 <= i < p2.len() ==> is_parse_of(#[trigger] p2[i], docs[i]),
    ensures
        spec_find_parsed(p1, id) == spec_find_parsed(p2, id),
        spec_find_parsed(p1, id) matches Some(i) ==> 0 <= i < p1.len(),
    decreases p1.len(),
{
    if p1.len() > 0 {
        let n = p1.len() - 1;
        let d = docs.drop_last();
        assert forall|i: int| 0 <= i < n implies is_parse_of(#[trigger] p1.drop_last()[i], d[i]) by {
            assert(is_parse_of(p1[i], docs[i]));
        }
        assert forall|i: int| 0 <= i < n implies is_parse_of(#[trigger] p2.drop_last()[i], d[i]) by {
            assert(is_parse_of(p2[i], docs[i]));
        }
        lemma_find_parsed_same(p1.drop_last(), p2.drop_last(), d, id);
        assert(is_parse_of(p1[n], docs[n]));
        assert(is_parse_of(p2[n], docs[n]));
    }
}

proof fn lemma_count_chunks_same(c1: Seq<Chunk>, c2: Seq<Chunk>, id: Seq<char>)
    requires
        chunks_model(c1) == chunks_model(c2),
    ensures
        spec_count_chunks(c1, id) == spec_count_chunks(c2, id),
    decreases c1.len(),
{
    assert(chunks_model(c1).len() == c1.len());
    assert(chunks_model(c2).len() == c2.len());
    if c1.len() > 0 {
        assert(chunks_model(c1.drop_last()) =~= chunks_model(c1).drop_last());
        assert(chunks_model(c2.drop_last()) =~= chunks_model(c2).drop_last());
        assert(chunks_model(c1)[c1.len() - 1] == chunks_model(c2)[c2.len() - 1]);
        lemma_count_chunks_same(c1.drop_last(), c2.drop_last(), id);
    }
}

proof fn lemma_first_failing_same(s1: Seq<StageResult>, s2: Seq<StageResult>)
    requires
        s1.len() == s2.len(),
        forall|k: int| 0 <= k < s1.len() ==> (#[trigger] s1[k]).status == s2[k].status,
    ensures
        spec_first_failing(s1) == spec_first_failing(s2),
    decreases s1.len(),
{
    if s1.len() > 0 {
        let n = s1.len() - 1;
        assert forall|k: int| 0 <= k < n implies (#[trigger] s1.drop_last()[k]).status
            == s2.drop_last()[k].status by {
            assert(s1[k].status == s2[k].status);
        }
        lemma_first_failing_same(s1.drop_last(), s2.drop_last());
        assert(s1[n].status == s2[n].status);
    }
}

/// A run's trace is fixed by its inputs and by the lists that retrieval and
/// reranking returned: two runs on the same query, documents and target, whose
/// retrieval and reranking returned the same lists, record the same query,
/// stage verdicts, cited sources and diagnosis.
pub proof fn law_run_is_fixed_by_inputs_and_scores(
    query_text: Seq<char>,
    docs: Seq<Document>,
    target: Seq<char>,
    parsed1: Seq<ParsedDocument>,
    chunks1: Seq<Chunk>,
    parsed2: Seq<ParsedDocument>,
    chunks2: Seq<Chunk>,
    retrieved: Seq<ScoredChunk>,
    reranked: Seq<ScoredChunk>,
    trace1: StageTrace,
    trace2: StageTrace,
)
    requires
        run_outcome(query_text, docs, target, parsed1, chunks1, retrieved, reranked, trace1),
        run_outcome(query_text, docs, target, parsed2, chunks2, retrieved, reranked, trace2),
    ensures
        trace_view(trace1) == trace_view(trace2),
{
    let s1 = trace1.stages@;
    let s2 = trace2.stages@;
    lemma_find_parsed_same(parsed1, parsed2, docs, target);
    match spec_find_parsed(parsed1, target) {
        Some(i) => {
            assert(is_parse_of(parsed1[i], docs[i]));
            assert(is_parse_of(parsed2[i], docs[i]));
            assert(parsed1[i].features == parsed2[i].features);
            assert(crate::parse::sections_model(parsed1[i].sections@).len() == parsed1[i].sections@.len());
            assert(crate::parse::sections_model(parsed2[i].sections@).len() == parsed2[i].sections@.len());
        },
        None => {},
    }
    assert(stage_view(s1[1]) == stage_view(s2[1]));
    lemma_chunks_of_parsed(parsed1, docs);
    lemma_chunks_of_parsed(parsed2, docs);
    lemma_count_chunks_same(chunks1, chunks2, target);
    assert(stage_view(s1[2]) == stage_view(s2[2]));
    assert forall|k: int| 0 <= k < 7 implies #[trigger] stage_view(s1[k]) == stage_view(s2[k]) by {}
    assert forall|k: int| 0 <= k < s1.len() implies (#[trigger] s1[k]).status == s2[k].status by {
        assert(stage_view(s1[k]) == stage_view(s2[k]));
    }
    lemma_first_failing_same(s1, s2);
    match spec_first_failing(s1) {
        Some(i) => {
            lemma_first_failing(s1);
            assert(stage_view(s1[i]) == stage_view(s2[i]));
        },
        None => {},
    }
    assert(spec_diagnose(s1) == spec_diagnose(s2));
    assert(s1.map_values(|s: StageResult| stage_view(s)) =~= s2.map_values(
        |s: StageResult| stage_view(s),
    ));
}

/// A parsed document as plain values: document, sections, summary, features.
pub open spec fn parsed_view(p: ParsedDocument) -> (
    Document,
    Seq<(Seq<char>, nat, Seq<char>)>,
    Seq<char>,
    crate::model::StructuralFeatures,
) {
    (p.document, sections_model(p.sections@), p.summary@, p.features)
}

/// Whether retrieval returns equal lists for indexes of equal chunks, equal
/// queries and equal cut-offs.
pub open spec fn retrieval_by_views<R>(retrieve: R) -> bool where
    R: Fn(&Bm25Index, &str, usize) -> Vec<ScoredChunk>,
 {
    forall|i1: &Bm25Index, i2: &Bm25Index, q1: &str, q2: &str, k: usize, r1: Vec<ScoredChunk>, r2: Vec<
        ScoredChunk,
    >|
        #![trigger retrieve.ensures((i1, q1, k), r1), retrieve.ensures((i2, q2, k), r2)]
        chunks_model(i1.spec_chunks()) == chunks_model(i2.spec_chunks()) && q1@ == q2@
            && retrieve.ensures((i1, q1, k), r1) && retrieve.ensures((i2, q2, k), r2) ==> r1@ == r2@
}

/// Whether reranking returns equal lists for equal queries, equal retrieved
/// lists and parsed documents of equal plain values.
pub open spec fn rerank_by_views<K>(rerank: K) -> bool where
    K: Fn(&str, &Vec<ScoredChunk>, &Vec<ParsedDocument>) -> Vec<ScoredChunk>,
 {
    forall|
        q1: &str,
        q2: &str,
        l1: &Vec<ScoredChunk>,
        l2: &Vec<ScoredChunk>,
        p1: &Vec<ParsedDocument>,
        p2: &Vec<ParsedDocument>,
        o1: Vec<ScoredChunk>,
        o2: Vec<ScoredChunk>,
    |
        #![trigger rerank.ensures((q1, l1, p1), o1), rerank.ensures((q2, l2, p2), o2)]
        q1@ == q2@ && l1@ == l2@ && p1@.map_values(|p: ParsedDocument| parsed_view(p))
            == p2@.map_values(|p: ParsedDocument| parsed_view(p)) && rerank.ensures((q1, l1, p1), o1)
            && rerank.ensures((q2, l2, p2), o2) ==> o1@ == o2@
}

/// The pipeline is deterministic: two runs on the same query, documents and
/// target, whose retrieval and reranking give equal lists on arguments of
/// equal plain values, record the same query, stage verdicts, cited sources
/// and diagnosis.
pub proof fn law_runs_on_equal_inputs_agree<R, K>(
    query_text: &str,
    docs: Seq<Document>,
    target: Seq<char>,
    retrieve: R,
    rerank: K,
    trace1: StageTrace,
    trace2: StageTrace,
) where
    R: Fn(&Bm25Index, &str, usize) -> Vec<ScoredChunk>,
    K: Fn(&str, &Vec<ScoredChunk>, &Vec<ParsedDocument>) -> Vec<ScoredChunk>,

    requires
        retrieval_by_views(retrieve),
        rerank_by_views(rerank),
        is_run(query_text, docs, target, retrieve, rerank, trace1),
        is_run(query_text, docs, target, retrieve, rerank, trace2),
    ensures
        trace_view(trace1) == trace_view(trace2),
{
    let (parsed1, index1, retrieved1, reranked1) = choose|
        parsed: Vec<ParsedDocument>,
        index: Bm25Index,
        retrieved: Vec<ScoredChunk>,
        reranked: Vec<ScoredChunk>,
    |
        #![trigger retrieve.ensures((&index, query_text, 8usize), retrieved), rerank.ensures((query_text, &retrieved, &parsed), reranked)]
        {
            &&& retrieve.ensures((&index, query_text, 8usize), retrieved)
            &&& rerank.ensures((query_text, &retrieved, &parsed), reranked)
            &&& run_outcome(
                query_text@,
                docs,
                target,
                parsed@,
                index.spec_chunks(),
                retrieved@,
                reranked@,
                trace1,
            )
        };
    let (parsed2, index2, retrieved2, reranked2) = choose|
        parsed: Vec<ParsedDocument>,
        index: Bm25Index,
        retrieved: Vec<ScoredChunk>,
        reranked: Vec<ScoredChunk>,
    |
        #![trigger retrieve.ensures((&index, query_text, 8usize), retrieved), rerank.ensures((query_text, &retrieved, &parsed), reranked)]
        {
            &&& retrieve.ensures((&index, query_text, 8usize), retrieved)
            &&& rerank.ensures((query_text, &retrieved, &parsed), reranked)
            &&& run_outcome(
                query_text@,
                docs,
                target,
                parsed@,
                index.spec_chunks(),
                retrieved@,
                reranked@,
                trace2,
            )
        };
    lemma_chunks_of_parsed(parsed1@, docs);
    lemma_chunks_of_parsed(parsed2@, docs);
    assert(chunks_model(index1.spec_chunks()) == chunks_model(index2.spec_chunks()));
    assert(retrieved1@ == retrieved2@);
    assert forall|i: int| 0 <= i < parsed1@.len() implies parsed_view(#[trigger] parsed1@[i])
        == parsed_view(parsed2@[i]) by {
        assert(is_parse_of(parsed1@[i], docs[i]));
        assert(is_parse_of(parsed2@[i], docs[i]));
        assert(parsed1@[i].features == parsed2@[i].features);
    }
    assert(parsed1@.map_values(|p: ParsedDocument| parsed_view(p)) =~= parsed2@.map_values(
        |p: ParsedDocument| parsed_view(p),
    ));
    assert(reranked1@ == reranked2@);
    law_run_is_fixed_by_inputs_and_scores(
        query_text@,
        docs,
        target,
        parsed1@,
        index1.spec_chunks(),
        parsed2@,
        index2.spec_chunks(),
        retrieved1@,
        reranked1@,
        trace1,
        trace2,
    );
}

/// Reranking fails when it pushes the target down: a target ranked worse
/// after reranking than before fails the stage, whatever its new rank.
pub proof fn law_rerank_demotion_fails(
    r: StageResult,
    before: Seq<ScoredChunk>,
    after: Seq<ScoredChunk>,
    target: Seq<char>,
)
    requires
        rerank_verdict(r, before, after, target),
        crate::rank::rank_worsened(spec_rank_of(before, target), spec_rank_of(after, target)),
    ensures
        r.status == StageStatus::Fail,
        is_failing(r),
{
}

// ---------------------------------------------------------------------------
// What each stage decides
// ---------------------------------------------------------------------------

proof fn lemma_position_of_contained(s: Seq<Seq<char>>, t: Seq<char>)
    requires
        s.contains(t),
    ensures
        crate::generate::spec_position(s, t) is Some,
    decreases s.len(),
{
    let k = choose|k: int| 0 <= k < s.len() && s[k] == t;
    if k < s.len() - 1 {
        assert(s.drop_last()[k] == t);
        lemma_position_of_contained(s.drop_last(), t);
    }
}

/// In a run, the answer cites exactly the documents of the first three
/// reranked chunks: a target with a chunk at rerank position 1, 2 or 3 is
/// cited and the citation stage passes, and every cited document owns one of
/// those three chunks.
pub proof fn law_top_three_reranked_are_cited(
    query_text: Seq<char>,
    docs: Seq<Document>,
    target: Seq<char>,
    parsed: Seq<ParsedDocument>,
    chunks: Seq<Chunk>,
    retrieved: Seq<ScoredChunk>,
    reranked: Seq<ScoredChunk>,
    trace: StageTrace,
)
    requires
        run_outcome(query_text, docs, target, parsed, chunks, retrieved, reranked, trace),
    ensures
        forall|j: int|
            0 <= j < 3 && j < reranked.len() ==> trace.cited_sources.deep_view().contains(
                #[trigger] reranked[j].chunk.document_id@,
            ),
        (exists|j: int|
            0 <= j < 3 && j < reranked.len() && #[trigger] reranked[j].chunk.document_id@ == target)
            ==> trace.stages@[6].status == StageStatus::Pass && trace.stages@[6].target_present,
        forall|t: Seq<char>|
            #[trigger] trace.cited_sources.deep_view().contains(t) ==> exists|j: int|
                0 <= j < 3 && j < reranked.len() && #[trigger] reranked[j].chunk.document_id@ == t,
{
    let used = crate::parse::prefix(reranked, 3);
    law_citations_are_distinct_chunk_ids(used);
    let cited = trace.cited_sources.deep_view();
    assert forall|j: int| 0 <= j < 3 && j < reranked.len() implies cited.contains(
        #[trigger] reranked[j].chunk.document_id@,
    ) by {
        assert(used[j] == reranked[j]);
    }
    if exists|j: int|
        0 <= j < 3 && j < reranked.len() && #[trigger] reranked[j].chunk.document_id@ == target {
        let j = choose|j: int|
            0 <= j < 3 && j < reranked.len() && #[trigger] reranked[j].chunk.document_id@ == target;
        assert(used[j] == reranked[j]);
        assert(cited.contains(reranked[j].chunk.document_id@));
        lemma_position_of_contained(cited, target);
    }
    assert forall|t: Seq<char>| #[trigger] cited.contains(t) implies exists|j: int|
        0 <= j < 3 && j < reranked.len() && #[trigger] reranked[j].chunk.document_id@ == t by {
        let a = choose|a: int| 0 <= a < cited.len() && cited[a] == t;
        assert(spec_cited(used)[a] == t);
        let j = choose|j: int| 0 <= j < used.len() && #[trigger] used[j].chunk.document_id@ == spec_cited(used)[a];
        assert(used[j] == reranked[j]);
    }
}

/// A document has a top definition exactly when its first twelve lines,
/// joined by spaces and lowercased, contain " is a ", " is an ", " helps ",
/// " lets ", " provides " or "debugger".
pub proof fn law_definition_markers_mark_a_top_definition(p: ParsedDocument, d: Document)
    requires
        is_parse_of(p, d),
    ensures
        ({
            let lines = spec_lines(d.content@);
            let first = if lines.len() > 12 {
                lines.take(12)
            } else {
                lines
            };
            let l = lowercase(spec_join(first, " "@));
            p.features.has_top_definition <==> (crate::text::spec_contains(l, " is a "@)
                || crate::text::spec_contains(l, " is an "@) || crate::text::spec_contains(
                l,
                " helps "@,
            ) || crate::text::spec_contains(l, " lets "@) || crate::text::spec_contains(
                l,
                " provides "@,
            ) || crate::text::spec_contains(l, "debugger"@))
        }),
{
}

proof fn lemma_find_first(parsed: Seq<ParsedDocument>, target: Seq<char>, i: int)
    requires
        0 <= i < parsed.len(),
        parsed[i].document.id@ == target,
        forall|j: int| 0 <= j < i ==> (#[trigger] parsed[j]).document.id@ != target,
    ensures
        spec_find_parsed(parsed, target) == Some(i),
    decreases parsed.len(),
{
    if i < parsed.len() - 1 {
        let p = parsed.drop_last();
        assert forall|j: int| 0 <= j < i implies (#[trigger] p[j]).document.id@ != target by {
            assert(parsed[j].document.id@ != target);
        }
        lemma_find_first(p, target, i);
    } else {
        lemma_find_none(parsed.drop_last(), target);
    }
}

proof fn lemma_find_none(parsed: Seq<ParsedDocument>, target: Seq<char>)
    requires
        forall|j: int| 0 <= j < parsed.len() ==> (#[trigger] parsed[j]).document.id@ != target,
    ensures
        spec_find_parsed(parsed, target) is None,
    decreases parsed.len(),
{
    if parsed.len() > 0 {
        let p = parsed.drop_last();
        assert forall|j: int| 0 <= j < p.len() implies (#[trigger] p[j]).document.id@ != target by {
            assert(parsed[j].document.id@ != target);
        }
        lemma_find_none(p, target);
        assert(parsed[parsed.len() - 1].document.id@ != target);
    }
}

/// The parse stage judges the first parsed document with the target's id:
/// it passes exactly when that document has a top definition and is partial
/// otherwise, with the target at rank 1; with no such document it fails.
pub proof fn law_parse_stage_passes_with_a_top_definition(
    r: StageResult,
    parsed: Seq<ParsedDocument>,
    target: Seq<char>,
)
    requires
        parse_verdict(r, parsed, target),
    ensures
        forall|i: int|
            0 <= i < parsed.len() && (#[trigger] parsed[i]).document.id@ == target && (forall|j: int|
                0 <= j < i ==> (#[trigger] parsed[j]).document.id@ != target) ==> {
                &&& r.target_rank == Some(1usize)
                &&& (parsed[i].features.has_top_definition ==> r.status == StageStatus::Pass)
                &&& (!parsed[i].features.has_top_definition ==> r.status == StageStatus::Partial)
            },
        (forall|j: int| 0 <= j < parsed.len() ==> (#[trigger] parsed[j]).document.id@ != target)
            ==> r.status == StageStatus::Fail && r.target_rank is None,
{
    assert forall|i: int|
        0 <= i < parsed.len() && (#[trigger] parsed[i]).document.id@ == target && (forall|j: int|
            0 <= j < i ==> (#[trigger] parsed[j]).document.id@ != target) implies {
        &&& r.target_rank == Some(1usize)
        &&& (parsed[i].features.has_top_definition ==> r.status == StageStatus::Pass)
        &&& (!parsed[i].features.has_top_definition ==> r.status == StageStatus::Partial)
    } by {
        lemma_find_first(parsed, target, i);
    }
    if forall|j: int| 0 <= j < parsed.len() ==> (#[trigger] parsed[j]).document.id@ != target {
        lemma_find_none(parsed, target);
    }
}

/// The synthesis stage passes whenever the answer does not begin with
/// "No local evidence", whether or not the target is cited, and records
/// whether it is; it fails when the answer has no evidence.
pub proof fn law_synthesis_passes_with_evidence(
    r: StageResult,
    answer: Seq<char>,
    cited: Seq<Seq<char>>,
    target: Seq<char>,
)
    requires
        synthesis_verdict(r, answer, cited, target),
    ensures
        !"No local evidence"@.is_prefix_of(answer) ==> r.status == StageStatus::Pass
            && r.target_present == cited.contains(target),
        "No local evidence"@.is_prefix_of(answer) ==> r.status == StageStatus::Fail,
{
}

/// In a run, synthesis passes exactly when reranking returned at least one
/// chunk.
pub proof fn law_synthesis_passes_when_chunks_are_reranked(
    query_text: Seq<char>,
    docs: Seq<Document>,
    target: Seq<char>,
    parsed: Seq<ParsedDocument>,
    chunks: Seq<Chunk>,
    retrieved: Seq<ScoredChunk>,
    reranked: Seq<ScoredChunk>,
    trace: StageTrace,
)
    requires
        run_outcome(query_text, docs, target, parsed, chunks, retrieved, reranked, trace),
    ensures
        trace.stages@[5].status == StageStatus::Pass <==> reranked.len() > 0,
{
    reveal_strlit("No local evidence");
    reveal_strlit("For '");
    reveal_strlit("No local evidence found for query: ");
    let used = crate::parse::prefix(reranked, 3);
    let answer = crate::generate::spec_answer(query_text, used);
    let pre = "No local evidence"@;
    if reranked.len() > 0 {
        assert(used.len() > 0);
        assert(answer[0] == 'F');
        assert(pre[0] == 'N');
        if pre.len() <= answer.len() {
            assert(answer.subrange(0, pre.len() as int)[0] == 'F');
        }
    } else {
        assert(used.len() == 0);
        assert(answer.subrange(0, pre.len() as int) =~= pre);
    }
}

/// The diagnosis names the class of the first stage that did not pass by its
/// name: crawl, parse, index, retrieve, rerank, synthesize and cite give the
/// crawl, parse, index, retrieval, rerank, synthesis and citation failures,
/// and any other name a factuality failure.
pub proof fn law_failure_class_follows_stage_name(stages: Seq<StageResult>, i: int)
    requires
        0 <= i < stages.len(),
        stages[i].status != StageStatus::Pass,
        forall|j: int| 0 <= j < i ==> (#[trigger] stages[j]).status == StageStatus::Pass,
    ensures
        ({
            let n = stages[i].stage@;
            let c = spec_diagnose(stages).0;
            &&& spec_diagnose(stages).1 == n
            &&& n == "crawl"@ ==> c == FailureClass::CrawlFailure
            &&& n == "parse"@ ==> c == FailureClass::ParseFailure
            &&& n == "index"@ ==> c == FailureClass::IndexFailure
            &&& n == "retrieve"@ ==> c == FailureClass::RetrievalFailure
            &&& n == "rerank"@ ==> c == FailureClass::RerankFailure
            &&& n == "synthesize"@ ==> c == FailureClass::SynthesisFailure
            &&& n == "cite"@ ==> c == FailureClass::CitationFailure
            &&& (n != "crawl"@ && n != "parse"@ && n != "index"@ && n != "retrieve"@ && n
                != "rerank"@ && n != "synthesize"@ && n != "cite"@) ==> c
                == FailureClass::FactualityFailure
        }),
{
    reveal_strlit("crawl");
    reveal_strlit("parse");
    reveal_strlit("index");
    reveal_strlit("retrieve");
    reveal_strlit("rerank");
    reveal_strlit("synthesize");
    reveal_strlit("cite");
    lemma_first_failing(stages);
    match spec_first_failing(stages) {
        Some(k) => {
            if k < i {
                assert(stages[k].status == StageStatus::Pass);
            }
            if k > i {
                assert(!is_failing(stages[i]));
            }
        },
        None => {
            assert(!is_failing(stages[i]));
        },
    }
    // the seven names differ in length or in their first character
    assert("crawl"@.len() == 5 && "crawl"@[0] == 'c');
    assert("parse"@.len() == 5 && "parse"@[0] == 'p');
    assert("index"@.len() == 5 && "index"@[0] == 'i');
    assert("retrieve"@.len() == 8 && "retrieve"@[0] == 'r');
    assert("rerank"@.len() == 6 && "rerank"@[0] == 'r');
    assert("synthesize"@.len() == 10 && "synthesize"@[0] == 's');
    assert("cite"@.len() == 4 && "cite"@[0] == 'c');
}

} // verus!
