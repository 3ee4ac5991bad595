//! Chunking of parsed documents into token windows, and the term statistics
//! that lexical retrieval reads.
use vstd::prelude::*;
use crate::counts::{occurrences, lemma_occurrences_bound, TermCounts};
use crate::model::{Chunk, Document, ParsedDocument, Section, SourceKind};
use crate::parse::{prefix, section_model, sections_model};
use crate::text::{decimal, join, own, push_str, spec_decimal, spec_join, spec_tokenize, tokenize};

verus! {

/// The most tokens one chunk holds.
pub const WINDOW: usize = 90;

/// A chunk as plain values: id, document id, source kind, title, heading,
/// text and token count.
pub type ChunkModel = (Seq<char>, Seq<char>, SourceKind, Seq<char>, Seq<char>, Seq<char>, nat);

/// The plain values of a chunk.
pub open spec fn chunk_model(c: Chunk) -> ChunkModel {
    (c.id@, c.document_id@, c.source_kind, c.title@, c.heading@, c.text@, c.token_count as nat)
}

/// The plain values of a list of chunks.
pub open spec fn chunks_model(v: Seq<Chunk>) -> Seq<ChunkModel> {
    v.map_values(|c: Chunk| chunk_model(c))
}

/// The `w`-th window of at most ninety tokens.
pub open spec fn window(tokens: Seq<Seq<char>>, w: int) -> Seq<Seq<char>> {
    let start = 90 * w;
    let end = if start + 90 < tokens.len() {
        start + 90
    } else {
        tokens.len() as int
    };
    tokens.subrange(start, end)
}

/// How many windows of ninety tokens cover `n` tokens.
pub open spec fn window_count(n: nat) -> nat {
    ((n + 89) / 90) as nat
}

/// The id of the `w`-th chunk of section `index` of a document.
pub open spec fn chunk_id(doc_id: Seq<char>, index: nat, w: nat) -> Seq<char> {
    doc_id + "-"@ + spec_decimal(index) + "-"@ + spec_decimal(w)
}

/// The chunk made of the `w`-th window of a section's tokens.
pub open spec fn window_chunk(
    doc: Document,
    index: nat,
    heading: Seq<char>,
    tokens: Seq<Seq<char>>,
    w: nat,
) -> ChunkModel {
    (
        chunk_id(doc.id@, index, w),
        doc.id@,
        doc.source_kind,
        doc.title@,
        heading,
        spec_join(window(tokens, w as int), " "@),
        window(tokens, w as int).len(),
    )
}

/// The chunks of section `index`: one per window of its tokens, none when
/// it has no tokens.
pub open spec fn section_chunks(
    doc: Document,
    index: nat,
    sec: (Seq<char>, nat, Seq<char>),
) -> Seq<ChunkModel> {
    let tokens = spec_tokenize(sec.2);
    Seq::new(window_count(tokens.len()), |w: int| window_chunk(doc, index, sec.0, tokens, w as nat))
}

/// The chunks of all sections, section by section.
pub open spec fn sections_chunks(doc: Document, secs: Seq<(Seq<char>, nat, Seq<char>)>) -> Seq<
    ChunkModel,
>
    decreases secs.len(),
{
    if secs.len() == 0 {
        Seq::empty()
    } else {
        sections_chunks(doc, secs.drop_last()) + section_chunks(
            doc,
            (secs.len() - 1) as nat,
            secs.last(),
        )
    }
}

/// The chunk of a document none of whose sections has a token: its first
/// ninety content tokens under the heading "Overview".
pub open spec fn fallback_chunk(doc: Document) -> ChunkModel {
    let tokens = spec_tokenize(doc.content@);
    (
        doc.id@ + "-0-0"@,
        doc.id@,
        doc.source_kind,
        doc.title@,
        "Overview"@,
        spec_join(prefix(tokens, 90), " "@),
        prefix(tokens, 90).len(),
    )
}

/// The chunks of a parsed document.
pub open spec fn spec_document_chunks(doc: Document, secs: Seq<(Seq<char>, nat, Seq<char>)>) -> Seq<
    ChunkModel,
> {
    let c = sections_chunks(doc, secs);
    if c.len() > 0 {
        c
    } else {
        seq![fallback_chunk(doc)]
    }
}

/// The chunks of all parsed documents, document by document.
pub open spec fn spec_chunks_from_parsed(parsed: Seq<ParsedDocument>) -> Seq<ChunkModel>
    decreases parsed.len(),
{
    if parsed.len() == 0 {
        Seq::empty()
    } else {
        spec_chunks_from_parsed(parsed.drop_last()) + spec_document_chunks(
            parsed.last().document,
            sections_model(parsed.last().sections@),
        )
    }
}

fn chunk_id_of(doc_id: &String, index: usize, w: usize) -> (r: String)
    ensures
        r@ == chunk_id(doc_id@, index as nat, w as nat),
{
    let mut id = doc_id.clone();
    push_str(&mut id, "-");
    let a = decimal(index);
    push_str(&mut id, a.as_str());
    push_str(&mut id, "-");
    let b = decimal(w);
    push_str(&mut id, b.as_str());
    id
}

fn copy_strings(v: &Vec<String>, start: usize, end: usize) -> (r: Vec<String>)
    requires
        start <= end <= v@.len(),
    ensures
        r.deep_view() == v.deep_view().subrange(start as int, end as int),
{
    let mut out: Vec<String> = Vec::new();
    let mut i: usize = start;
    while i < end
        invariant
            start <= i <= end <= v@.len(),
            out.deep_view() == v.deep_view().subrange(start as int, i as int),
        decreases end - i,
    {
        let c = v[i].clone();
        assert(c@ == v.deep_view()[i as int]);
        let ghost before = out.deep_view();
        out.push(c);
        assert(out.deep_view() =~= before.push(c@));
        i += 1;
        assert(out.deep_view() =~= v.deep_view().subrange(start as int, i as int));
    }
    out
}

proof fn lemma_window_count(n: nat, w: nat)
    requires
        90 * w >= n,
        w == 0 || 90 * (w - 1) < n,
    ensures
        w == window_count(n),
{
    assert(w == (n + 89) / 90) by (nonlinear_arith)
        requires
            90 * w >= n,
            w == 0 || 90 * (w - 1) < n,
    ;
}

/// Appends the chunks of one section.
fn push_section_chunks(
    out: &mut Vec<Chunk>,
    doc: &Document,
    index: usize,
    section: &Section,
)
    ensures
        chunks_model(final(out)@) == chunks_model(old(out)@) + section_chunks(
            *doc,
            index as nat,
            section_model(*section),
        ),
{
    let heading = &section.heading;
    let text = &section.text;
    let tokens = tokenize(text.as_str());
    let ghost toks = tokens.deep_view();
    let ghost base = chunks_model(out@);
    let ghost expected = section_chunks(*doc, index as nat, section_model(*section));
    let n = tokens.len();
    let mut start: usize = 0;
    let mut w: usize = 0;
    while start < n
        invariant
            n == tokens@.len(),
            toks == tokens.deep_view(),
            toks == spec_tokenize(text@),
            start == (if 90 * w < n {
                90 * w
            } else {
                n as int
            }),
            w == 0 || 90 * (w - 1) < n,
            chunks_model(out@) == base + Seq::new(
                w as nat,
                |j: int| window_chunk(*doc, index as nat, heading@, toks, j as nat),
            ),
        decreases n - start,
    {
        let end = if n - start > WINDOW {
            start + WINDOW
        } else {
            n
        };
        let window_tokens = copy_strings(&tokens, start, end);
        let text_of_window = join(&window_tokens, " ");
        let id = chunk_id_of(&doc.id, index, w);
        let ghost before = chunks_model(out@);
        out.push(
            Chunk {
                id,
                document_id: doc.id.clone(),
                source_kind: doc.source_kind,
                title: doc.title.clone(),
                heading: heading.clone(),
                text: text_of_window,
                token_count: end - start,
            },
        );
        proof {
            assert(window(toks, w as int) =~= toks.subrange(start as int, end as int));
            assert(chunks_model(out@) =~= before.push(
                window_chunk(*doc, index as nat, heading@, toks, w as nat),
            ));
        }
        start = end;
        w += 1;
        proof {
            assert(chunks_model(out@) =~= base + Seq::new(
                w as nat,
                |j: int| window_chunk(*doc, index as nat, heading@, toks, j as nat),
            ));
        }
    }
    proof {
        lemma_window_count(n as nat, w as nat);
        assert(expected =~= Seq::new(
            w as nat,
            |j: int| window_chunk(*doc, index as nat, heading@, toks, j as nat),
        ));
    }
}

/// Cuts a parsed document into chunks: each section's tokens in windows of
/// ninety, or, when no section has a token, one chunk of the first ninety
/// tokens of the whole content.
pub fn chunks_for_document(parsed: &ParsedDocument) -> (r: Vec<Chunk>)
    ensures
        chunks_model(r@) == spec_document_chunks(parsed.document, sections_model(parsed.sections@)),
{
    let doc = &parsed.document;
    let ghost secs = sections_model(parsed.sections@);
    let mut out: Vec<Chunk> = Vec::new();
    let mut i: usize = 0;
    proof {
        assert(secs.take(0) =~= Seq::<(Seq<char>, nat, Seq<char>)>::empty());
        assert(chunks_model(out@) =~= Seq::empty());
    }
    while i < parsed.sections.len()
        invariant
            i <= parsed.sections@.len(),
            secs == sections_model(parsed.sections@),
            doc == &parsed.document,
            chunks_model(out@) == sections_chunks(*doc, secs.take(i as int)),
        decreases parsed.sections@.len() - i,
    {
        proof {
            assert(secs.take(i + 1).drop_last() =~= secs.take(i as int));
            assert(secs.take(i + 1).last() == section_model(parsed.sections@[i as int]));
        }
        push_section_chunks(&mut out, doc, i, &parsed.sections[i]);
        i += 1;
    }
    assert(secs.take(parsed.sections@.len() as int) =~= secs);
    if out.len() == 0 {
        let tokens = tokenize(doc.content.as_str());
        let ghost toks = tokens.deep_view();
        let count = if tokens.len() > WINDOW {
            WINDOW
        } else {
            tokens.len()
        };
        let first = copy_strings(&tokens, 0, count);
        assert(first.deep_view() =~= prefix(toks, 90));
        let mut id = doc.id.clone();
        push_str(&mut id, "-0-0");
        out.push(
            Chunk {
                id,
                document_id: doc.id.clone(),
                source_kind: doc.source_kind,
                title: doc.title.clone(),
                heading: own("Overview"),
                text: join(&first, " "),
                token_count: count,
            },
        );
        assert(chunks_model(out@) =~= seq![fallback_chunk(*doc)]);
    }
    out
}

/// The chunks of every parsed document, document by document.
pub fn chunks_from_parsed(parsed: &Vec<ParsedDocument>) -> (r: Vec<Chunk>)
    ensures
        chunks_model(r@) == spec_chunks_from_parsed(parsed@),
{
    let mut out: Vec<Chunk> = Vec::new();
    let mut i: usize = 0;
    proof {
        assert(parsed@.take(0) =~= Seq::<ParsedDocument>::empty());
        assert(chunks_model(out@) =~= Seq::empty());
    }
    while i < parsed.len()
        invariant
            i <= parsed@.len(),
            chunks_model(out@) == spec_chunks_from_parsed(parsed@.take(i as int)),
        decreases parsed@.len() - i,
    {
        let mut more = chunks_for_document(&parsed[i]);
        let ghost before = chunks_model(out@);
        let ghost added = chunks_model(more@);
        out.append(&mut more);
        proof {
            assert(parsed@.take(i + 1).drop_last() =~= parsed@.take(i as int));
            assert(chunks_model(out@) =~= before + added);
        }
        i += 1;
    }
    assert(parsed@.take(parsed@.len() as int) =~= parsed@);
    out
}

// ---------------------------------------------------------------------------
// Term statistics
// ---------------------------------------------------------------------------

/// The tokens of a chunk's text.
pub open spec fn chunk_tokens(c: Chunk) -> Seq<Seq<char>> {
    spec_tokenize(c.text@)
}

/// How many of the chunks hold the token `t`.
pub open spec fn docs_containing(chunks: Seq<Chunk>, t: Seq<char>) -> nat
    decreases chunks.len(),
{
    if chunks.len() == 0 {
        0
    } else {
        docs_containing(chunks.drop_last(), t) + (if chunk_tokens(chunks.last()).contains(t) {
            1nat
        } else {
            0nat
        })
    }
}

/// How many tokens the chunks' texts hold in all.
pub open spec fn total_tokens(chunks: Seq<Chunk>) -> nat
    decreases chunks.len(),
{
    if chunks.len() == 0 {
        0
    } else {
        total_tokens(chunks.drop_last()) + chunk_tokens(chunks.last()).len()
    }
}

pub proof fn lemma_docs_containing_bound(chunks: Seq<Chunk>, t: Seq<char>)
    ensures
        docs_containing(chunks, t) <= chunks.len(),
    decreases chunks.len(),
{
    if chunks.len() > 0 {
        lemma_docs_containing_bound(chunks.drop_last(), t);
    }
}

pub proof fn lemma_total_tokens_prefix(chunks: Seq<Chunk>, i: int)
    requires
        0 <= i <= chunks.len(),
    ensures
        total_tokens(chunks.take(i)) <= total_tokens(chunks),
    decreases chunks.len() - i,
{
    if i < chunks.len() {
        lemma_total_tokens_prefix(chunks, i + 1);
        assert(chunks.take(i + 1).drop_last() =~= chunks.take(i));
    } else {
        assert(chunks.take(i) =~= chunks);
    }
}

/// Lexical statistics of a list of chunks: each chunk's term counts, each
/// term's number of chunks, and the total token count.
pub struct Bm25Index {
    chunks: Vec<Chunk>,
    doc_freqs: TermCounts,
    term_freqs: Vec<TermCounts>,
    total_len: usize,
}

impl Bm25Index {
    /// Every statistic agrees with the tokens of the chunks.
    #[verifier::type_invariant]
    spec fn consistent(self) -> bool {
        &&& self.term_freqs@.len() == self.chunks@.len()
        &&& forall|i: int|
            #![trigger self.term_freqs@[i]]
            0 <= i < self.chunks@.len() ==> {
                &&& self.term_freqs@[i].wf()
                &&& forall|t: Seq<char>|
                    self.term_freqs@[i].count(t) == occurrences(chunk_tokens(self.chunks@[i]), t)
            }
        &&& self.doc_freqs.wf()
        &&& forall|t: Seq<char>| self.doc_freqs.count(t) == docs_containing(self.chunks@, t)
        &&& self.total_len == total_tokens(self.chunks@)
    }

    /// The indexed chunks.
    pub closed spec fn spec_chunks(self) -> Seq<Chunk> {
        self.chunks@
    }

    fn term_counts(tokens: &Vec<String>) -> (r: TermCounts)
        ensures
            r.wf(),
            forall|t: Seq<char>| r.count(t) == occurrences(tokens.deep_view(), t),
    {
        let ghost toks = tokens.deep_view();
        let mut freqs = TermCounts::new();
        let mut j: usize = 0;
        proof {
            assert(toks.take(0) =~= Seq::<Seq<char>>::empty());
        }
        while j < tokens.len()
            invariant
                j <= tokens@.len(),
                toks == tokens.deep_view(),
                freqs.wf(),
                forall|t: Seq<char>| freqs.count(t) == occurrences(toks.take(j as int), t),
            decreases tokens@.len() - j,
        {
            proof {
                lemma_occurrences_bound(toks.take(j as int), tokens@[j as int]@);
                assert(toks.take(j + 1).drop_last() =~= toks.take(j as int));
                assert(toks[j as int] == tokens@[j as int]@);
            }
            freqs.add(&tokens[j]);
            j += 1;
        }
        assert(toks.take(tokens@.len() as int) =~= toks);
        freqs
    }

    /// Indexes the chunks.
    pub fn new(chunks: Vec<Chunk>) -> (r: Self)
        requires
            total_tokens(chunks@) <= usize::MAX,
        ensures
            r.spec_chunks() == chunks@,
    {
        let mut doc_freqs = TermCounts::new();
        let mut term_freqs: Vec<TermCounts> = Vec::new();
        let mut total_len: usize = 0;
        let mut i: usize = 0;
        proof {
            assert(chunks@.take(0) =~= Seq::<Chunk>::empty());
        }
        while i < chunks.len()
            invariant
                i <= chunks@.len(),
                total_tokens(chunks@) <= usize::MAX,
                term_freqs@.len() == i,
                forall|k: int|
                    #![trigger term_freqs@[k]]
                    0 <= k < i ==> {
                        &&& term_freqs@[k].wf()
                        &&& forall|t: Seq<char>|
                            term_freqs@[k].count(t) == occurrences(chunk_tokens(chunks@[k]), t)
                    },
                doc_freqs.wf(),
                forall|t: Seq<char>|
                    doc_freqs.count(t) == docs_containing(chunks@.take(i as int), t),
                total_len == total_tokens(chunks@.take(i as int)),
            decreases chunks@.len() - i,
        {
            let tokens = tokenize(chunks[i].text.as_str());
            proof {
                assert(chunks@.take(i + 1).drop_last() =~= chunks@.take(i as int));
                assert(chunks@.take(i + 1).last() == chunks@[i as int]);
                lemma_total_tokens_prefix(chunks@, i + 1);
            }
            total_len = total_len + tokens.len();
            let freqs = Self::term_counts(&tokens);
            let keys = freqs.keys();
            let ghost base = doc_freqs;
            let ghost key_list = keys.deep_view();
            let mut k: usize = 0;
            proof {
                assert(key_list.take(0) =~= Seq::<Seq<char>>::empty());
            }
            while k < keys.len()
                invariant
                    k <= keys@.len(),
                    key_list == keys.deep_view(),
                    key_list == freqs.key_list(),
                    forall|a: int, b: int|
                        0 <= a < b < key_list.len() ==> key_list[a] != key_list[b],
                    i < chunks@.len(),
                    chunks@.len() <= usize::MAX,
                    doc_freqs.wf(),
                    forall|t: Seq<char>| base.count(t) == docs_containing(chunks@.take(i as int), t),
                    forall|t: Seq<char>|
                        doc_freqs.count(t) == base.count(t) + (if key_list.take(k as int).contains(
                            t,
                        ) {
                            1nat
                        } else {
                            0nat
                        }),
                decreases keys@.len() - k,
            {
                proof {
                    let key = key_list[k as int];
                    assert(keys@[k as int]@ == key);
                    lemma_docs_containing_bound(chunks@.take(i as int), key);
                    let t0 = key_list.take(k as int);
                    if t0.contains(key) {
                        let a = choose|a: int| 0 <= a < t0.len() && t0[a] == key;
                        assert(key_list[a] == key);
                        assert(false);
                    }
                    assert(doc_freqs.count(key) == base.count(key));
                    assert(base.count(key) <= i);
                }
                doc_freqs.add(&keys[k]);
                proof {
                    let key = key_list[k as int];
                    let t0 = key_list.take(k as int);
                    let t1 = key_list.take(k + 1);
                    assert forall|t: Seq<char>| t1.contains(t) <==> (t0.contains(t) || t == key) by {
                        if t1.contains(t) {
                            let a = choose|a: int| 0 <= a < t1.len() && t1[a] == t;
                            if a < k {
                                assert(t0[a] == t);
                            }
                        }
                        if t0.contains(t) {
                            let a = choose|a: int| 0 <= a < t0.len() && t0[a] == t;
                            assert(t1[a] == t);
                        }
                        if t == key {
                            assert(t1[k as int] == t);
                        }
                    }
                }
                k += 1;
            }
            proof {
                assert(key_list.take(keys@.len() as int) =~= key_list);
                assert forall|t: Seq<char>|
                    doc_freqs.count(t) == docs_containing(chunks@.take(i + 1), t) by {
                    lemma_occurrences_bound(chunk_tokens(chunks@[i as int]), t);
                }
            }
            term_freqs.push(freqs);
            i += 1;
        }
        assert(chunks@.take(chunks@.len() as int) =~= chunks@);
        Bm25Index { chunks, doc_freqs, term_freqs, total_len }
    }

    /// Whether no chunk is indexed.
    pub fn is_empty(&self) -> (r: bool)
        ensures
            r == (self.spec_chunks().len() == 0),
    {
        self.chunks.len() == 0
    }

    /// The indexed chunks.
    pub fn chunks(&self) -> (r: &[Chunk])
        ensures
            r@ == self.spec_chunks(),
    {
        self.chunks.as_slice()
    }

    /// How often `term` occurs among the tokens of chunk `index`, when it
    /// occurs at all.
    pub fn term_frequency(&self, index: usize, term: &str) -> (r: Option<usize>)
        requires
            index < self.spec_chunks().len(),
        ensures
            r == (if occurrences(chunk_tokens(self.spec_chunks()[index as int]), term@) > 0 {
                Some(occurrences(chunk_tokens(self.spec_chunks()[index as int]), term@) as usize)
            } else {
                None
            }),
    {
        proof {
            use_type_invariant(self);
        }
        let c = self.term_freqs[index].get(term);
        if c > 0 {
            Some(c)
        } else {
            None
        }
    }

    /// How many chunks hold `term`.
    pub fn document_frequency(&self, term: &str) -> (r: usize)
        ensures
            r == docs_containing(self.spec_chunks(), term@),
    {
        proof {
            use_type_invariant(self);
        }
        self.doc_freqs.get(term)
    }

    /// How many tokens the indexed chunks hold in all.
    pub fn token_total(&self) -> (r: usize)
        ensures
            r == total_tokens(self.spec_chunks()),
    {
        proof {
            use_type_invariant(self);
        }
        self.total_len
    }
}

} // verus!
