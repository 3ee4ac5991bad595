# citestage

A stage-level debugger for citation failures in generative answer engines,
as a verified library. A corpus of a target document, competitors and
distractors goes through crawl, parse, index, retrieve, rerank, synthesize
and cite; each stage records a verdict with evidence, and the first stage
that did not pass names the primary failure and its repair plan.

Layout:

- `src/` — the library, verified with Verus.
  - `text.rs`: tokenizer, lines, trimming, words, joining, decimal numerals.
  - `model.rs`: documents, chunks, stage verdicts and traces.
  - `parse.rs`: Markdown sections, summary, structural signals.
  - `counts.rs`, `index.rs`: chunking and lexical statistics.
  - `rank.rs`: ordering by score, retrieval and rerank verdicts.
  - `generate.rs`: the extractive answer and the synthesis and citation verdicts.
  - `diagnose.rs`, `report.rs`: diagnosis and the Markdown report.
  - `corpus.rs`: manifests and corpus building over an observed file system.
  - `pipeline.rs`: crawl, parse and index verdicts, and the whole run.
  - `laws.rs`: properties that span the stages.
- `app/` — the command line: file and YAML/JSON I/O, and the
  floating-point BM25 and rerank scoring, which hand their order keys to the
  library's ranking.
- `tests/` — tests of the library.

Scores cross into the library as `u32` keys that order like `f32::total_cmp`;
clarity scores are held in hundredths.
