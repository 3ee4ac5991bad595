//! Ordering of scored chunks, and the verdicts of the retrieval and rerank
//! stages on where the target landed.
use vstd::prelude::*;
use crate::counts::{lemma_occurrences_bound, occurrences};
use crate::model::{ParsedDocument, ScoredChunk, StageResult, StageStatus};
use crate::text::{concat, decimal, own, spec_decimal, spec_tokenize, tokenize};

verus! {

// ---------------------------------------------------------------------------
// Ordering by score
// ---------------------------------------------------------------------------

/// Whether item `a` comes before item `b` in a stable descending order by
/// score: a higher score, or the same score and an earlier position.
pub open spec fn ranked_before(items: Seq<ScoredChunk>, a: int, b: int) -> bool {
    items[a].score > items[b].score || (items[a].score == items[b].score && a < b)
}

/// Whether `perm` lists the positions of `items` in stable descending order
/// of score.
pub open spec fn is_rank_order(items: Seq<ScoredChunk>, perm: Seq<int>) -> bool {
    &&& perm.len() == items.len()
    &&& forall|k: int| 0 <= k < perm.len() ==> 0 <= #[trigger] perm[k] < items.len()
    &&& forall|k: int, l: int|
        0 <= k < l < perm.len() ==> ranked_before(items, #[trigger] perm[k], #[trigger] perm[l])
}

/// Whether `result` is the first `top_k` items of `items` in stable
/// descending order of score, each with its 1-based rank.
pub open spec fn is_ranking(items: Seq<ScoredChunk>, top_k: nat, result: Seq<ScoredChunk>) -> bool {
    exists|perm: Seq<int>|
        {
            &&& is_rank_order(items, perm)
            &&& result.len() == (if top_k < items.len() {
                top_k
            } else {
                items.len()
            })
            &&& forall|k: int|
                0 <= k < result.len() ==> #[trigger] result[k].rank == k + 1 && result[k] == (
                ScoredChunk { rank: result[k].rank, ..items[perm[k]] })
        }
}

fn insert_position(out: &Vec<ScoredChunk>, score: u32) -> (p: usize)
    ensures
        p <= out@.len(),
        forall|a: int| 0 <= a < p ==> out@[a].score >= score,
        p < out@.len() ==> out@[p as int].score < score,
{
    let mut p: usize = 0;
    while p < out.len() && out[p].score >= score
        invariant
            p <= out@.len(),
            forall|a: int| 0 <= a < p ==> out@[a].score >= score,
        decreases out@.len() - p,
    {
        p += 1;
    }
    p
}

/// Sorts by descending score, keeping the given order among equal scores,
/// and numbers the first `top_k` items from 1; the rest are dropped.
pub fn rank_results(items: Vec<ScoredChunk>, top_k: usize) -> (r: Vec<ScoredChunk>)
    ensures
        is_ranking(items@, top_k as nat, r@),
{
    let ghost orig = items@;
    let n = items.len();
    let mut items = items;
    let mut out: Vec<ScoredChunk> = Vec::new();
    let ghost mut perm: Seq<int> = Seq::empty();
    let mut i: usize = 0;
    while i < n
        invariant
            n == orig.len(),
            i <= n,
            items@ == orig.skip(i as int),
            out@.len() == i,
            perm.len() == i,
            forall|k: int| 0 <= k < i ==> 0 <= #[trigger] perm[k] < i,
            forall|k: int| 0 <= k < i ==> #[trigger] out@[k] == orig[perm[k]],
            forall|k: int, l: int|
                0 <= k < l < i ==> ranked_before(orig, #[trigger] perm[k], #[trigger] perm[l]),
        decreases n - i,
    {
        let x = items.remove(0);
        assert(x == orig[i as int]);
        assert(items@ =~= orig.skip(i + 1));
        let p = insert_position(&out, x.score);
        let ghost old_out = out@;
        let ghost old_perm = perm;
        out.insert(p, x);
        proof {
            perm = old_perm.insert(p as int, i as int);
            assert forall|k: int| 0 <= k < i + 1 implies 0 <= #[trigger] perm[k] < i + 1 by {
                if k < p {
                    assert(perm[k] == old_perm[k]);
                } else if k > p {
                    assert(perm[k] == old_perm[k - 1]);
                }
            }
            assert forall|k: int| 0 <= k < i + 1 implies #[trigger] out@[k] == orig[perm[k]] by {
                if k < p {
                    assert(out@[k] == old_out[k]);
                    assert(perm[k] == old_perm[k]);
                } else if k > p {
                    assert(out@[k] == old_out[k - 1]);
                    assert(perm[k] == old_perm[k - 1]);
                }
            }
            assert forall|k: int, l: int| 0 <= k < l < i + 1 implies ranked_before(
                orig,
                #[trigger] perm[k],
                #[trigger] perm[l],
            ) by {
                if l < p {
                    assert(perm[k] == old_perm[k] && perm[l] == old_perm[l]);
                } else if l == p {
                    assert(perm[k] == old_perm[k]);
                    assert(old_out[k] == orig[old_perm[k]]);
                } else if k > p {
                    assert(perm[k] == old_perm[k - 1] && perm[l] == old_perm[l - 1]);
                } else if k == p {
                    assert(perm[l] == old_perm[l - 1]);
                    assert(old_out[l - 1] == orig[old_perm[l - 1]]);
                    assert(old_out[p as int] == orig[old_perm[p as int]]);
                    if l - 1 > p {
                        assert(ranked_before(orig, old_perm[p as int], old_perm[l - 1]));
                    }
                } else {
                    assert(perm[k] == old_perm[k] && perm[l] == old_perm[l - 1]);
                }
            }
        }
        i += 1;
    }
    let count = if top_k < n {
        top_k
    } else {
        n
    };
    let mut result: Vec<ScoredChunk> = Vec::new();
    let mut k: usize = 0;
    while k < count
        invariant
            count <= n,
            out@.len() == n - k,
            k <= count,
            result@.len() == k,
            forall|j: int| 0 <= j < n - k ==> #[trigger] out@[j] == orig[perm[j + k]],
            forall|j: int|
                0 <= j < k ==> #[trigger] result@[j].rank == j + 1 && result@[j] == (ScoredChunk {
                    rank: result@[j].rank,
                    ..orig[perm[j]]
                }),
        decreases count - k,
    {
        let mut item = out.remove(0);
        item.rank = k + 1;
        result.push(item);
        k += 1;
    }
    assert(is_rank_order(orig, perm));
    result
}

// ---------------------------------------------------------------------------
// Where the target landed
// ---------------------------------------------------------------------------

/// The rank of the first item that belongs to document `target`.
pub open spec fn spec_rank_of(items: Seq<ScoredChunk>, target: Seq<char>) -> Option<usize>
    decreases items.len(),
{
    if items.len() == 0 {
        None
    } else {
        match spec_rank_of(items.drop_last(), target) {
            Some(r) => Some(r),
            None => if items.last().chunk.document_id@ == target {
                Some(items.last().rank)
            } else {
                None
            },
        }
    }
}

/// The rank of the first item that belongs to document `target`.
pub fn rank_of(items: &[ScoredChunk], target: &str) -> (r: Option<usize>)
    ensures
        r == spec_rank_of(items@, target@),
{
    let t = own(target);
    let mut i: usize = 0;
    let mut found: Option<usize> = None;
    proof {
        assert(items@.take(0) =~= Seq::<ScoredChunk>::empty());
    }
    while i < items.len()
        invariant
            i <= items@.len(),
            t@ == target@,
            found == spec_rank_of(items@.take(i as int), target@),
        decreases items@.len() - i,
    {
        proof {
            assert(items@.take(i + 1).drop_last() =~= items@.take(i as int));
        }
        if found.is_none() && items[i].chunk.document_id == t {
            found = Some(items[i].rank);
        }
        i += 1;
    }
    assert(items@.take(items@.len() as int) =~= items@);
    found
}

/// The verdict of retrieval: where the target's first chunk ranks.
pub open spec fn spec_retrieval_status(rank: Option<usize>) -> StageStatus {
    match rank {
        Some(r) => if r <= 3 {
            StageStatus::Pass
        } else {
            StageStatus::Partial
        },
        None => StageStatus::Fail,
    }
}

/// The evidence line of retrieval.
pub open spec fn spec_retrieval_evidence(rank: Option<usize>) -> Seq<char> {
    match rank {
        Some(r) => "target chunk retrieved at rank "@ + spec_decimal(r as nat),
        None => "target project had no chunks in retrieval top-k"@,
    }
}

/// The evidence strings of a stage as plain values.
pub open spec fn evidence_of(s: StageResult) -> Seq<Seq<char>> {
    s.evidence.deep_view()
}

/// The retrieval verdict on a result list: the target's rank, the status
/// it earns, and the evidence line.
pub open spec fn retrieval_verdict(r: StageResult, results: Seq<ScoredChunk>, target: Seq<char>) -> bool {
    &&& r.stage@ == "retrieve"@
    &&& r.target_rank == spec_rank_of(results, target)
    &&& r.target_present == r.target_rank is Some
    &&& r.status == spec_retrieval_status(r.target_rank)
    &&& evidence_of(r) == seq![spec_retrieval_evidence(r.target_rank)]
}

/// Judges retrieval: passes when the target's first chunk ranks in the top
/// three, is partial when it ranks lower, and fails when it is absent.
pub fn retrieval_stage(results: &[ScoredChunk], target_id: &str) -> (r: StageResult)
    ensures
        retrieval_verdict(r, results@, target_id@),
{
    let target_rank = rank_of(results, target_id);
    let status = match target_rank {
        Some(rank) => if rank <= 3 {
            StageStatus::Pass
        } else {
            StageStatus::Partial
        },
        None => StageStatus::Fail,
    };
    let line = match target_rank {
        Some(rank) => {
            let d = decimal(rank);
            concat("target chunk retrieved at rank ", d.as_str())
        },
        None => own("target project had no chunks in retrieval top-k"),
    };
    let mut evidence: Vec<String> = Vec::new();
    evidence.push(line);
    assert(evidence.deep_view() =~= seq![spec_retrieval_evidence(target_rank)]);
    StageResult::with_rank("retrieve", status, target_rank, evidence)
}

/// Whether the target ranked worse after reranking than before it.
pub open spec fn rank_worsened(before: Option<usize>, after: Option<usize>) -> bool {
    match (before, after) {
        (Some(b), Some(a)) => a > b,
        _ => false,
    }
}

/// The verdict of reranking from the target's rank before and after: a
/// worsened rank fails; otherwise a rank in the top three passes, a kept or
/// improved rank or a newly appeared target is partial, and an absent target
/// fails.
pub open spec fn spec_rerank_status(before: Option<usize>, after: Option<usize>) -> StageStatus {
    match after {
        Some(a) => if rank_worsened(before, after) {
            StageStatus::Fail
        } else if a <= 3 {
            StageStatus::Pass
        } else {
            StageStatus::Partial
        },
        None => StageStatus::Fail,
    }
}

/// The evidence line of reranking.
pub open spec fn spec_rerank_evidence(before: Option<usize>, after: Option<usize>) -> Seq<char> {
    match (before, after) {
        (Some(b), Some(a)) => "target moved from retrieval rank "@ + spec_decimal(b as nat)
            + " to rerank rank "@ + spec_decimal(a as nat),
        (None, Some(a)) => "target appeared after rerank at rank "@ + spec_decimal(a as nat),
        _ => "target absent after rerank"@,
    }
}

/// The rerank verdict on the result lists before and after reranking.
pub open spec fn rerank_verdict(
    r: StageResult,
    before: Seq<ScoredChunk>,
    after: Seq<ScoredChunk>,
    target: Seq<char>,
) -> bool {
    &&& r.stage@ == "rerank"@
    &&& r.target_rank == spec_rank_of(after, target)
    &&& r.target_present == r.target_rank is Some
    &&& r.status == spec_rerank_status(spec_rank_of(before, target), r.target_rank)
    &&& evidence_of(r) == seq![spec_rerank_evidence(spec_rank_of(before, target), r.target_rank)]
}

/// Judges reranking: fails when the target's rank got worse or the target is
/// absent after it; otherwise passes when the target ranks in the top three,
/// and is partial when it kept or improved its rank or newly appeared.
pub fn rerank_stage(before: &[ScoredChunk], after: &[ScoredChunk], target_id: &str) -> (r:
    StageResult)
    ensures
        rerank_verdict(r, before@, after@, target_id@),
{
    let before_rank = rank_of(before, target_id);
    let after_rank = rank_of(after, target_id);
    let worsened = match (before_rank, after_rank) {
        (Some(b), Some(a)) => a > b,
        _ => false,
    };
    let status = match after_rank {
        Some(a) => if worsened {
            StageStatus::Fail
        } else if a <= 3 {
            StageStatus::Pass
        } else {
            StageStatus::Partial
        },
        None => StageStatus::Fail,
    };
    let line = match (before_rank, after_rank) {
        (Some(b), Some(a)) => {
            let mut s = own("target moved from retrieval rank ");
            let db = decimal(b);
            crate::text::push_str(&mut s, db.as_str());
            crate::text::push_str(&mut s, " to rerank rank ");
            let da = decimal(a);
            crate::text::push_str(&mut s, da.as_str());
            s
        },
        (None, Some(a)) => {
            let da = decimal(a);
            concat("target appeared after rerank at rank ", da.as_str())
        },
        _ => own("target absent after rerank"),
    };
    let mut evidence: Vec<String> = Vec::new();
    evidence.push(line);
    assert(evidence.deep_view() =~= seq![spec_rerank_evidence(before_rank, after_rank)]);
    StageResult::with_rank("rerank", status, after_rank, evidence)
}

// ---------------------------------------------------------------------------
// Rerank signals
// ---------------------------------------------------------------------------

proof fn lemma_push_contains(s: Seq<Seq<char>>, x: Seq<char>, t: Seq<char>)
    ensures
        s.push(x).contains(t) <==> (s.contains(t) || t == x),
{
    let p = s.push(x);
    if p.contains(t) {
        let a = choose|a: int| 0 <= a < p.len() && p[a] == t;
        if a < s.len() {
            assert(s[a] == t);
        }
    }
    if s.contains(t) {
        let a = choose|a: int| 0 <= a < s.len() && s[a] == t;
        assert(p[a] == t);
    }
    if t == x {
        assert(p[s.len() as int] == t);
    }
}

/// Whether no term occurs twice.
pub open spec fn distinct_terms(terms: Seq<Seq<char>>) -> bool {
    forall|a: int, b: int| 0 <= a < b < terms.len() ==> terms[a] != terms[b]
}

/// The distinct tokens of a query, each once.
pub fn query_term_set(query: &str) -> (r: Vec<String>)
    ensures
        distinct_terms(r.deep_view()),
        forall|t: Seq<char>| r.deep_view().contains(t) <==> spec_tokenize(query@).contains(t),
{
    let tokens = tokenize(query);
    let ghost toks = tokens.deep_view();
    let mut out: Vec<String> = Vec::new();
    let mut i: usize = 0;
    while i < tokens.len()
        invariant
            i <= tokens@.len(),
            toks == tokens.deep_view(),
            distinct_terms(out.deep_view()),
            forall|t: Seq<char>| out.deep_view().contains(t) <==> toks.take(i as int).contains(t),
        decreases tokens@.len() - i,
    {
        let mut seen = false;
        let mut j: usize = 0;
        while j < out.len()
            invariant
                j <= out@.len(),
                i < tokens@.len(),
                seen == exists|a: int| 0 <= a < j && out.deep_view()[a] == tokens@[i as int]@,
            decreases out@.len() - j,
        {
            assert(out.deep_view()[j as int] == out@[j as int]@);
            if out[j] == tokens[i] {
                seen = true;
            }
            j += 1;
        }
        let ghost before = out.deep_view();
        let ghost tok = toks[i as int];
        assert(tok == tokens@[i as int]@);
        if !seen {
            out.push(tokens[i].clone());
            assert(out.deep_view() =~= before.push(tok));
        }
        proof {
            let t0 = toks.take(i as int);
            let t1 = toks.take(i + 1);
            assert(t1 =~= t0.push(tok));
            assert forall|t: Seq<char>| out.deep_view().contains(t) <==> t1.contains(t) by {
                lemma_push_contains(t0, tok, t);
                if !seen {
                    lemma_push_contains(before, tok, t);
                } else {
                    let a = choose|a: int| 0 <= a < out@.len() && out.deep_view()[a] == tok;
                    assert(before[a] == tok);
                }
            }
        }
        i += 1;
    }
    assert(toks.take(tokens@.len() as int) =~= toks);
    out
}

/// How many of the terms occur among the given tokens.
pub open spec fn matched_terms(terms: Seq<Seq<char>>, tokens: Seq<Seq<char>>) -> nat
    decreases terms.len(),
{
    if terms.len() == 0 {
        0
    } else {
        matched_terms(terms.drop_last(), tokens) + (if tokens.contains(terms.last()) {
            1nat
        } else {
            0nat
        })
    }
}

proof fn lemma_matched_terms_bound(terms: Seq<Seq<char>>, tokens: Seq<Seq<char>>)
    ensures
        matched_terms(terms, tokens) <= terms.len(),
    decreases terms.len(),
{
    if terms.len() > 0 {
        lemma_matched_terms_bound(terms.drop_last(), tokens);
    }
}

fn holds_token(tokens: &Vec<String>, t: &String) -> (r: bool)
    ensures
        r == tokens.deep_view().contains(t@),
{
    let mut i: usize = 0;
    while i < tokens.len()
        invariant
            i <= tokens@.len(),
            forall|a: int| 0 <= a < i ==> tokens.deep_view()[a] != t@,
        decreases tokens@.len() - i,
    {
        if tokens[i] == *t {
            assert(tokens.deep_view()[i as int] == t@);
            return true;
        }
        i += 1;
    }
    false
}

/// How many of the query terms occur among the tokens of `text`.
pub fn overlap_count(query_terms: &Vec<String>, text: &str) -> (r: usize)
    ensures
        r == matched_terms(query_terms.deep_view(), spec_tokenize(text@)),
{
    let tokens = tokenize(text);
    let ghost terms = query_terms.deep_view();
    let mut count: usize = 0;
    let mut i: usize = 0;
    while i < query_terms.len()
        invariant
            i <= query_terms@.len(),
            terms == query_terms.deep_view(),
            tokens.deep_view() == spec_tokenize(text@),
            count == matched_terms(terms.take(i as int), tokens.deep_view()),
        decreases query_terms@.len() - i,
    {
        proof {
            assert(terms.take(i + 1).drop_last() =~= terms.take(i as int));
            lemma_matched_terms_bound(terms.take(i as int), tokens.deep_view());
        }
        if holds_token(&tokens, &query_terms[i]) {
            count += 1;
        }
        i += 1;
    }
    assert(terms.take(query_terms@.len() as int) =~= terms);
    count
}

/// The clarity score of the last parsed document with the given id.
pub open spec fn spec_clarity_of(parsed: Seq<ParsedDocument>, doc_id: Seq<char>) -> Option<u32>
    decreases parsed.len(),
{
    if parsed.len() == 0 {
        None
    } else if parsed.last().document.id@ == doc_id {
        Some(parsed.last().features.clarity_score)
    } else {
        spec_clarity_of(parsed.drop_last(), doc_id)
    }
}

/// The clarity score (in hundredths) of the last parsed document with the
/// given id, when there is one.
pub fn clarity_of(parsed: &Vec<ParsedDocument>, doc_id: &String) -> (r: Option<u32>)
    ensures
        r == spec_clarity_of(parsed@, doc_id@),
{
    let mut i: usize = parsed.len();
    assert(parsed@.take(i as int) =~= parsed@);
    while i > 0
        invariant
            i <= parsed@.len(),
            spec_clarity_of(parsed@, doc_id@) == spec_clarity_of(parsed@.take(i as int), doc_id@),
        decreases i,
    {
        assert(parsed@.take(i as int).drop_last() =~= parsed@.take(i - 1));
        if parsed[i - 1].document.id == *doc_id {
            return Some(parsed[i - 1].features.clarity_score);
        }
        i -= 1;
    }
    None
}

} // verus!
