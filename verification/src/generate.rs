//! The extractive answer generator and the verdicts of the synthesis and
//! citation stages.
use vstd::prelude::*;
use crate::model::{ScoredChunk, StageResult, StageStatus};
use crate::parse::prefix;
use crate::rank::evidence_of;
use crate::text::{
    concat, decimal, first_words, join, own, push_str, spec_decimal, spec_first_words, spec_join,
    starts_with,
};

verus! {

/// An answer with the documents it cites, in citation order.
#[derive(Debug, Clone)]
pub struct GeneratedAnswer {
    pub answer: String,
    pub cited_sources: Vec<String>,
}

/// The answer fragment drawn from one chunk: its title, its first
/// twenty-four words and its document id in brackets.
pub open spec fn spec_part(c: ScoredChunk) -> Seq<char> {
    c.chunk.title@ + ": "@ + spec_first_words(c.chunk.text@, 24) + " ["@ + c.chunk.document_id@
        + "]"@
}

/// The answer fragments of the chunks, in order.
pub open spec fn spec_parts(chunks: Seq<ScoredChunk>) -> Seq<Seq<char>> {
    chunks.map_values(|c: ScoredChunk| spec_part(c))
}

/// The document ids of the chunks, each once, in order of first appearance.
pub open spec fn spec_cited(chunks: Seq<ScoredChunk>) -> Seq<Seq<char>>
    decreases chunks.len(),
{
    if chunks.len() == 0 {
        Seq::empty()
    } else {
        let p = spec_cited(chunks.drop_last());
        if p.contains(chunks.last().chunk.document_id@) {
            p
        } else {
            p.push(chunks.last().chunk.document_id@)
        }
    }
}

/// The answer text for a query and the chunks it may use.
pub open spec fn spec_answer(query: Seq<char>, used: Seq<ScoredChunk>) -> Seq<char> {
    if used.len() == 0 {
        "No local evidence found for query: "@ + query
    } else {
        "For '"@ + query + "', local evidence suggests: "@ + spec_join(spec_parts(used), " "@)
    }
}

fn part_of(c: &ScoredChunk) -> (r: String)
    ensures
        r@ == spec_part(*c),
{
    let mut s = concat(c.chunk.title.as_str(), ": ");
    let words = first_words(c.chunk.text.as_str(), 24);
    push_str(&mut s, words.as_str());
    push_str(&mut s, " [");
    push_str(&mut s, c.chunk.document_id.as_str());
    push_str(&mut s, "]");
    s
}

fn contains_string(v: &Vec<String>, s: &String) -> (r: bool)
    ensures
        r == v.deep_view().contains(s@),
{
    let mut i: usize = 0;
    while i < v.len()
        invariant
            i <= v@.len(),
            forall|a: int| 0 <= a < i ==> v.deep_view()[a] != s@,
        decreases v@.len() - i,
    {
        if v[i] == *s {
            assert(v.deep_view()[i as int] == s@);
            return true;
        }
        i += 1;
    }
    false
}

/// Writes an extractive answer from the first `max_citations` chunks,
/// citing each of their documents once.
pub fn synthesize(query: &str, chunks: &[ScoredChunk], max_citations: usize) -> (r:
    GeneratedAnswer)
    ensures
        r.answer@ == spec_answer(query@, prefix(chunks@, max_citations as nat)),
        r.cited_sources.deep_view() == spec_cited(prefix(chunks@, max_citations as nat)),
{
    let count = if max_citations < chunks.len() {
        max_citations
    } else {
        chunks.len()
    };
    let ghost used = prefix(chunks@, max_citations as nat);
    let mut cited: Vec<String> = Vec::new();
    let mut parts: Vec<String> = Vec::new();
    let mut i: usize = 0;
    proof {
        assert(used.take(0) =~= Seq::<ScoredChunk>::empty());
    }
    while i < count
        invariant
            i <= count,
            count == used.len(),
            used == prefix(chunks@, max_citations as nat),
            count <= chunks@.len(),
            cited.deep_view() == spec_cited(used.take(i as int)),
            parts.deep_view() == spec_parts(used.take(i as int)),
        decreases count - i,
    {
        proof {
            assert(used.take(i + 1).drop_last() =~= used.take(i as int));
            assert(used[i as int] == chunks@[i as int]);
        }
        let c = &chunks[i];
        if !contains_string(&cited, &c.chunk.document_id) {
            let ghost before = cited.deep_view();
            cited.push(c.chunk.document_id.clone());
            assert(cited.deep_view() =~= before.push(c.chunk.document_id@));
        }
        let ghost before_parts = parts.deep_view();
        let part = part_of(c);
        parts.push(part);
        proof {
            let t1 = used.take(i + 1);
            assert(parts.deep_view() =~= before_parts.push(spec_part(*c)));
            assert(t1[i as int] == *c);
            assert forall|k: int| 0 <= k < i + 1 implies parts.deep_view()[k] == spec_parts(t1)[k] by {
                if k < i {
                    assert(t1[k] == used.take(i as int)[k]);
                }
            }
            assert(parts.deep_view() =~= spec_parts(t1));
        }
        i += 1;
    }
    assert(used.take(count as int) =~= used);
    let answer = if parts.len() == 0 {
        concat("No local evidence found for query: ", query)
    } else {
        let mut a = concat("For '", query);
        push_str(&mut a, "', local evidence suggests: ");
        let joined = join(&parts, " ");
        push_str(&mut a, joined.as_str());
        a
    };
    GeneratedAnswer { answer, cited_sources: cited }
}

/// The synthesis verdict on an answer and its citations.
pub open spec fn synthesis_verdict(
    r: StageResult,
    answer: Seq<char>,
    cited: Seq<Seq<char>>,
    target: Seq<char>,
) -> bool {
    let prefix = "No local evidence"@;
    &&& r.stage@ == "synthesize"@
    &&& r.target_rank is None
    &&& if prefix.len() <= answer.len() && answer.subrange(0, prefix.len() as int) == prefix {
        &&& r.status == StageStatus::Fail
        &&& !r.target_present
        &&& evidence_of(r) == seq!["generator had no evidence to synthesize"@]
    } else {
        &&& r.status == StageStatus::Pass
        &&& r.target_present == cited.contains(target)
        &&& evidence_of(r) == seq!["deterministic extractive answer produced"@]
    }
}

/// Judges synthesis: fails when the answer reports no evidence; otherwise
/// passes, with the target present when it is cited.
pub fn synthesize_stage(answer: &GeneratedAnswer, target_id: &str) -> (r: StageResult)
    ensures
        synthesis_verdict(r, answer.answer@, answer.cited_sources.deep_view(), target_id@),
{
    if starts_with(answer.answer.as_str(), "No local evidence") {
        let mut evidence: Vec<String> = Vec::new();
        evidence.push(own("generator had no evidence to synthesize"));
        assert(evidence.deep_view() =~= seq!["generator had no evidence to synthesize"@]);
        return StageResult::with_rank("synthesize", StageStatus::Fail, None, evidence);
    }
    let mut evidence: Vec<String> = Vec::new();
    evidence.push(own("deterministic extractive answer produced"));
    assert(evidence.deep_view() =~= seq!["deterministic extractive answer produced"@]);
    let target = own(target_id);
    let present = contains_string(&answer.cited_sources, &target);
    StageResult::pass("synthesize", evidence).with_target_presence(present)
}

/// The 1-based position of the first occurrence of `t` in `s`.
pub open spec fn spec_position(s: Seq<Seq<char>>, t: Seq<char>) -> Option<nat>
    decreases s.len(),
{
    if s.len() == 0 {
        None
    } else {
        match spec_position(s.drop_last(), t) {
            Some(p) => Some(p),
            None => if s.last() == t {
                Some(s.len())
            } else {
                None
            },
        }
    }
}

/// The evidence line of the citation stage.
pub open spec fn spec_citation_evidence(cited: Seq<Seq<char>>, rank: Option<nat>) -> Seq<char> {
    match rank {
        Some(r) => "target cited at citation position "@ + spec_decimal(r),
        None => "target not cited; cited sources were: "@ + spec_join(cited, ", "@),
    }
}

/// The citation verdict on the cited documents.
pub open spec fn citation_verdict(r: StageResult, cited: Seq<Seq<char>>, target: Seq<char>) -> bool {
    &&& r.stage@ == "cite"@
    &&& r.target_rank == match spec_position(cited, target) {
        Some(p) => Some(p as usize),
        None => None::<usize>,
    }
    &&& r.target_present == r.target_rank is Some
    &&& r.status == (if r.target_rank is Some {
        StageStatus::Pass
    } else {
        StageStatus::Fail
    })
    &&& evidence_of(r) == seq![spec_citation_evidence(cited, spec_position(cited, target))]
}

/// Judges citation: passes when the target is cited, with its 1-based
/// citation position as its rank, and fails otherwise.
pub fn citation_stage(answer: &GeneratedAnswer, target_id: &str) -> (r: StageResult)
    ensures
        citation_verdict(r, answer.cited_sources.deep_view(), target_id@),
{
    let ghost cited = answer.cited_sources.deep_view();
    let target = own(target_id);
    let mut rank: Option<usize> = None;
    let mut i: usize = 0;
    proof {
        assert(cited.take(0) =~= Seq::<Seq<char>>::empty());
    }
    while i < answer.cited_sources.len()
        invariant
            i <= cited.len(),
            cited == answer.cited_sources.deep_view(),
            target@ == target_id@,
            rank == match spec_position(cited.take(i as int), target_id@) {
                Some(p) => Some(p as usize),
                None => None::<usize>,
            },
            match spec_position(cited.take(i as int), target_id@) {
                Some(p) => p <= i,
                None => true,
            },
        decreases cited.len() - i,
    {
        proof {
            assert(cited.take(i + 1).drop_last() =~= cited.take(i as int));
            assert(cited[i as int] == answer.cited_sources@[i as int]@);
        }
        if rank.is_none() && answer.cited_sources[i] == target {
            rank = Some(i + 1);
        }
        i += 1;
    }
    assert(cited.take(cited.len() as int) =~= cited);
    let status = if rank.is_some() {
        StageStatus::Pass
    } else {
        StageStatus::Fail
    };
    let line = match rank {
        Some(r) => {
            let d = decimal(r);
            concat("target cited at citation position ", d.as_str())
        },
        None => {
            let j = join(&answer.cited_sources, ", ");
            concat("target not cited; cited sources were: ", j.as_str())
        },
    };
    let mut evidence: Vec<String> = Vec::new();
    evidence.push(line);
    assert(evidence.deep_view() =~= seq![
        spec_citation_evidence(cited, spec_position(cited, target_id@)),
    ]);
    StageResult::with_rank("cite", status, rank, evidence)
}

} // verus!
