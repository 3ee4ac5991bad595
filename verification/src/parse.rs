//! Markdown parsing: sections split at ATX headings, a token summary and the
//! structural signals that the reranker and the parse stage read.
use vstd::prelude::*;
use crate::model::{Document, ParsedDocument, Section, StructuralFeatures};
use crate::text::{
    chars_of, contains, is_whitespace, join, lines, own, spec_contains, spec_is_whitespace,
    spec_join, spec_lines, lowercase, spec_tokenize, spec_trim, string_of, to_lowercase,
    tokenize, trim_chars,
};

verus! {

// ---------------------------------------------------------------------------
// Headings
// ---------------------------------------------------------------------------

/// The number of `'#'` characters at the start of `line`.
pub open spec fn leading_hashes(line: Seq<char>) -> nat
    decreases line.len(),
{
    if line.len() > 0 && line[0] == '#' {
        1 + leading_hashes(line.drop_first())
    } else {
        0
    }
}

/// The level and trimmed title of a heading line: one to six `'#'`, a
/// whitespace character, and at least one more character (the line grammar
/// `^(#{1,6})\s+(.+)\s*$`).
pub open spec fn spec_heading(line: Seq<char>) -> Option<(nat, Seq<char>)> {
    let k = leading_hashes(line);
    if 1 <= k <= 6 && k + 2 <= line.len() && spec_is_whitespace(line[k as int]) {
        Some((k, spec_trim(line.skip(k as int))))
    } else {
        None
    }
}

proof fn lemma_leading_hashes(line: Seq<char>, k: int)
    requires
        0 <= k <= line.len(),
        forall|j: int| 0 <= j < k ==> line[j] == '#',
        k == line.len() || line[k] != '#',
    ensures
        leading_hashes(line) == k,
    decreases k,
{
    if k > 0 {
        lemma_leading_hashes(line.drop_first(), k - 1);
    }
}

/// The level and title of `line` when it is a heading.
pub fn heading_of(line: &Vec<char>) -> (r: Option<(usize, String)>)
    ensures
        match r {
            Some((k, h)) => spec_heading(line@) == Some((k as nat, h@)),
            None => spec_heading(line@) is None,
        },
{
    let mut k: usize = 0;
    while k < line.len() && line[k] == '#'
        invariant
            k <= line.len(),
            forall|j: int| 0 <= j < k ==> line@[j] == '#',
        decreases line.len() - k,
    {
        k += 1;
    }
    proof {
        lemma_leading_hashes(line@, k as int);
    }
    if 1 <= k && k <= 6 && k + 2 <= line.len() && is_whitespace(line[k]) {
        let mut rest: Vec<char> = Vec::new();
        let mut i: usize = k;
        while i < line.len()
            invariant
                k <= i <= line.len(),
                rest@ == line@.subrange(k as int, i as int),
            decreases line.len() - i,
        {
            rest.push(line[i]);
            i += 1;
            assert(rest@ =~= line@.subrange(k as int, i as int));
        }
        assert(rest@ =~= line@.skip(k as int));
        let t = trim_chars(&rest);
        Some((k, string_of(&t)))
    } else {
        None
    }
}

// ---------------------------------------------------------------------------
// Sections
// ---------------------------------------------------------------------------

/// A section as plain values: heading, level and text.
pub open spec fn section_model(s: Section) -> (Seq<char>, nat, Seq<char>) {
    (s.heading@, s.level as nat, s.text@)
}

/// The sections of a list as plain values.
pub open spec fn sections_model(v: Seq<Section>) -> Seq<(Seq<char>, nat, Seq<char>)> {
    v.map_values(|s: Section| section_model(s))
}

/// `secs` with a section for the trimmed `text` added, unless that text is
/// empty.
pub open spec fn push_section_spec(
    secs: Seq<(Seq<char>, nat, Seq<char>)>,
    heading: Seq<char>,
    level: nat,
    text: Seq<char>,
) -> Seq<(Seq<char>, nat, Seq<char>)> {
    let t = spec_trim(text);
    if t.len() == 0 {
        secs
    } else {
        secs.push((heading, level, t))
    }
}

/// The state of the section scan: closed sections, and the heading, level
/// and accumulated text of the open one.
pub type ScanState = (Seq<(Seq<char>, nat, Seq<char>)>, Seq<char>, nat, Seq<char>);

/// The scan state after one more line: a heading closes the open section
/// and opens a new one; any other line is added to the open section's text
/// with a newline.
pub open spec fn scan_step(st: ScanState, line: Seq<char>) -> ScanState {
    match spec_heading(line) {
        Some((k, h)) => (push_section_spec(st.0, st.1, st.2, st.3), h, k, Seq::empty()),
        None => (st.0, st.1, st.2, st.3 + line + seq!['\n']),
    }
}

/// The scan state after the given lines, starting from an open "Overview"
/// section of level 1.
pub open spec fn scan_lines(lines: Seq<Seq<char>>) -> ScanState
    decreases lines.len(),
{
    if lines.len() == 0 {
        (Seq::empty(), "Overview"@, 1, Seq::empty())
    } else {
        scan_step(scan_lines(lines.drop_last()), lines.last())
    }
}

/// The sections of a Markdown text: the text between headings, trimmed,
/// with empty sections left out; a text with no non-empty section is one
/// "Overview" section holding the whole text.
pub open spec fn spec_split_sections(content: Seq<char>) -> Seq<(Seq<char>, nat, Seq<char>)> {
    let st = scan_lines(spec_lines(content));
    let secs = push_section_spec(st.0, st.1, st.2, st.3);
    if secs.len() == 0 {
        seq![("Overview"@, 1nat, content)]
    } else {
        secs
    }
}

fn push_section(sections: &mut Vec<Section>, heading: &String, level: usize, text: &Vec<char>)
    ensures
        sections_model(final(sections)@) == push_section_spec(
            sections_model(old(sections)@),
            heading@,
            level as nat,
            text@,
        ),
{
    let t = trim_chars(text);
    if t.len() == 0 {
        return ;
    }
    let ghost before = sections_model(sections@);
    sections.push(Section { heading: heading.clone(), level, text: string_of(&t) });
    assert(sections_model(sections@) =~= before.push((heading@, level as nat, t@)));
}

/// Splits Markdown content into sections at its heading lines.
pub fn split_sections(content: &str) -> (out: Vec<Section>)
    ensures
        sections_model(out@) == spec_split_sections(content@),
        out@.len() >= 1,
{
    let ls = lines(content);
    let mut sections: Vec<Section> = Vec::new();
    let mut heading = own("Overview");
    let mut level: usize = 1;
    let mut text: Vec<char> = Vec::new();
    let ghost all = ls.deep_view();
    let mut i: usize = 0;
    proof {
        assert(all.take(0) =~= Seq::<Seq<char>>::empty());
        assert(sections_model(sections@) =~= Seq::empty());
    }
    while i < ls.len()
        invariant
            i <= ls.len(),
            all == ls.deep_view(),
            all == spec_lines(content@),
            scan_lines(all.take(i as int)) == (
                sections_model(sections@),
                heading@,
                level as nat,
                text@,
            ),
        decreases ls.len() - i,
    {
        assert(all.take(i + 1).drop_last() =~= all.take(i as int));
        let cs = chars_of(ls[i].as_str());
        match heading_of(&cs) {
            Some((k, h)) => {
                push_section(&mut sections, &heading, level, &text);
                heading = h;
                level = k;
                text = Vec::new();
            },
            None => {
                let ghost before = text@;
                let mut j: usize = 0;
                while j < cs.len()
                    invariant
                        j <= cs.len(),
                        text@ == before + cs@.take(j as int),
                    decreases cs.len() - j,
                {
                    text.push(cs[j]);
                    j += 1;
                    assert(text@ =~= before + cs@.take(j as int));
                }
                text.push('\n');
                assert(text@ =~= before + cs@ + seq!['\n']);
            },
        }
        i += 1;
    }
    assert(all.take(ls.len() as int) =~= all);
    push_section(&mut sections, &heading, level, &text);
    if sections.len() == 0 {
        sections.push(Section { heading: own("Overview"), level: 1, text: own(content) });
        assert(sections_model(sections@) =~= seq![("Overview"@, 1nat, content@)]);
    }
    sections
}

// ---------------------------------------------------------------------------
// Structural signals
// ---------------------------------------------------------------------------

/// At most the first `n` elements of `s`.
pub open spec fn prefix<A>(s: Seq<A>, n: nat) -> Seq<A> {
    if n < s.len() {
        s.take(n as int)
    } else {
        s
    }
}

/// The first twelve lines of a text joined by single spaces.
pub open spec fn spec_top(content: Seq<char>) -> Seq<char> {
    spec_join(prefix(spec_lines(content), 12), " "@)
}

/// Whether a text, lowercased, reads like a one-sentence definition: it
/// holds " is a ", " is an ", " helps ", " lets ", " provides " or
/// "debugger".
pub open spec fn spec_has_definition_sentence(top: Seq<char>) -> bool {
    let l = lowercase(top);
    ||| spec_contains(l, " is a "@)
    ||| spec_contains(l, " is an "@)
    ||| spec_contains(l, " helps "@)
    ||| spec_contains(l, " lets "@)
    ||| spec_contains(l, " provides "@)
    ||| spec_contains(l, "debugger"@)
}

/// 1 for true, 0 for false.
pub open spec fn one_if(b: bool) -> nat {
    if b {
        1
    } else {
        0
    }
}

/// How many of the use-case phrases "use case", "example", "when to use",
/// "for teams", "helps" and "workflow" the lowercased text holds.
pub open spec fn spec_use_case_term_count(content: Seq<char>) -> nat {
    let l = lowercase(content);
    one_if(spec_contains(l, "use case"@)) + one_if(spec_contains(l, "example"@)) + one_if(
        spec_contains(l, "when to use"@),
    ) + one_if(spec_contains(l, "for teams"@)) + one_if(spec_contains(l, "helps"@)) + one_if(
        spec_contains(l, "workflow"@),
    )
}

/// Whether a heading, lowercased, names installation: it holds "install",
/// "quickstart" or "setup".
pub open spec fn is_install_heading(h: Seq<char>) -> bool {
    let l = lowercase(h);
    spec_contains(l, "install"@) || spec_contains(l, "quickstart"@) || spec_contains(l, "setup"@)
}

/// The position of the first section whose heading names installation.
pub open spec fn spec_install_position(secs: Seq<(Seq<char>, nat, Seq<char>)>) -> Option<nat>
    decreases secs.len(),
{
    if secs.len() == 0 {
        None
    } else {
        match spec_install_position(secs.drop_last()) {
            Some(i) => Some(i),
            None => if is_install_heading(secs.last().0) {
                Some((secs.len() - 1) as nat)
            } else {
                None
            },
        }
    }
}

/// The deepest heading level among the sections, or 1 when there are none.
pub open spec fn spec_max_heading_depth(secs: Seq<(Seq<char>, nat, Seq<char>)>) -> nat
    decreases secs.len(),
{
    if secs.len() == 0 {
        1
    } else if secs.len() == 1 {
        secs[0].1
    } else {
        let m = spec_max_heading_depth(secs.drop_last());
        if secs.last().1 > m {
            secs.last().1
        } else {
            m
        }
    }
}

/// The clarity score in hundredths: 20, plus 40 for a definition sentence,
/// plus 20 for an installation section among the first four, plus 5 for each
/// use-case phrase up to four, at most 100.
pub open spec fn spec_clarity_score(
    has_definition: bool,
    install_position: Option<nat>,
    use_case_terms: nat,
) -> nat {
    let install_bonus: nat = match install_position {
        Some(p) => if p <= 3 {
            20
        } else {
            0
        },
        None => 0,
    };
    let terms: nat = if use_case_terms < 4 {
        use_case_terms
    } else {
        4
    };
    let total = 20 + (if has_definition {
        40nat
    } else {
        0nat
    }) + install_bonus + 5 * terms;
    if total < 100 {
        total
    } else {
        100
    }
}

/// The structural signals that a text with the given sections shows.
pub open spec fn features_of(
    f: StructuralFeatures,
    content: Seq<char>,
    secs: Seq<(Seq<char>, nat, Seq<char>)>,
) -> bool {
    let pos = spec_install_position(secs);
    &&& f.has_top_definition == spec_has_definition_sentence(spec_top(content))
    &&& f.max_heading_depth == spec_max_heading_depth(secs)
    &&& f.install_section_position == match pos {
        Some(p) => Some(p as usize),
        None => None::<usize>,
    }
    &&& f.use_case_term_count == spec_use_case_term_count(content)
    &&& f.clarity_score == spec_clarity_score(
        f.has_top_definition,
        pos,
        f.use_case_term_count as nat,
    )
}

fn has_definition_sentence(top: &str) -> (r: bool)
    ensures
        r == spec_has_definition_sentence(top@),
{
    let l = to_lowercase(top);
    let s = l.as_str();
    contains(s, " is a ") || contains(s, " is an ") || contains(s, " helps ") || contains(
        s,
        " lets ",
    ) || contains(s, " provides ") || contains(s, "debugger")
}

fn count_use_case_terms(content: &str) -> (r: usize)
    ensures
        r == spec_use_case_term_count(content@),
{
    let l = to_lowercase(content);
    let s = l.as_str();
    let mut n: usize = 0;
    if contains(s, "use case") {
        n += 1;
    }
    if contains(s, "example") {
        n += 1;
    }
    if contains(s, "when to use") {
        n += 1;
    }
    if contains(s, "for teams") {
        n += 1;
    }
    if contains(s, "helps") {
        n += 1;
    }
    if contains(s, "workflow") {
        n += 1;
    }
    n
}

fn clarity_score(
    has_definition: bool,
    install_position: Option<usize>,
    use_case_terms: usize,
) -> (r: u32)
    ensures
        r == spec_clarity_score(
            has_definition,
            match install_position {
                Some(p) => Some(p as nat),
                None => None,
            },
            use_case_terms as nat,
        ),
{
    let mut score: u32 = 20;
    if has_definition {
        score += 40;
    }
    match install_position {
        Some(p) => if p <= 3 {
            score += 20;
        },
        None => {},
    }
    let terms: u32 = if use_case_terms < 4 {
        use_case_terms as u32
    } else {
        4
    };
    score += 5 * terms;
    if score < 100 {
        score
    } else {
        100
    }
}

fn is_install_section(heading: &String) -> (r: bool)
    ensures
        r == is_install_heading(heading@),
{
    let l = to_lowercase(heading.as_str());
    let s = l.as_str();
    contains(s, "install") || contains(s, "quickstart") || contains(s, "setup")
}

fn top_of(content: &str) -> (r: String)
    ensures
        r@ == spec_top(content@),
{
    let mut ls = lines(content);
    let ghost all = ls.deep_view();
    if 12 < ls.len() {
        ls.truncate(12);
        assert(ls.deep_view() =~= all.take(12));
    }
    join(&ls, " ")
}

/// The structural signals of a text with the given sections.
fn structural_features(content: &str, sections: &Vec<Section>) -> (f: StructuralFeatures)
    ensures
        features_of(f, content@, sections_model(sections@)),
{
    let top = top_of(content);
    let has_top_definition = has_definition_sentence(top.as_str());
    let ghost secs = sections_model(sections@);
    let mut max_depth: usize = 1;
    let mut position: Option<usize> = None;
    let mut i: usize = 0;
    while i < sections.len()
        invariant
            i <= sections.len(),
            secs == sections_model(sections@),
            max_depth == spec_max_heading_depth(secs.take(i as int)),
            position == match spec_install_position(secs.take(i as int)) {
                Some(p) => Some(p as usize),
                None => None::<usize>,
            },
            match spec_install_position(secs.take(i as int)) {
                Some(p) => p < i,
                None => true,
            },
        decreases sections.len() - i,
    {
        let ghost t = secs.take(i + 1);
        assert(t.drop_last() =~= secs.take(i as int));
        assert(t.last() == section_model(sections@[i as int]));
        if i == 0 || sections[i].level > max_depth {
            max_depth = sections[i].level;
        }
        if position.is_none() && is_install_section(&sections[i].heading) {
            position = Some(i);
        }
        i += 1;
    }
    assert(secs.take(sections.len() as int) =~= secs);
    let use_case_term_count = count_use_case_terms(content);
    let clarity = clarity_score(has_top_definition, position, use_case_term_count);
    StructuralFeatures {
        has_top_definition,
        max_heading_depth: max_depth,
        install_section_position: position,
        use_case_term_count,
        clarity_score: clarity,
    }
}

/// The first `count` tokens of a text joined by single spaces.
pub open spec fn spec_first_tokens(content: Seq<char>, count: nat) -> Seq<char> {
    spec_join(prefix(spec_tokenize(content), count), " "@)
}

fn first_tokens(content: &str, count: usize) -> (r: String)
    ensures
        r@ == spec_first_tokens(content@, count as nat),
{
    let mut ts = tokenize(content);
    let ghost all = ts.deep_view();
    if count < ts.len() {
        ts.truncate(count);
        assert(ts.deep_view() =~= all.take(count as int));
    }
    join(&ts, " ")
}

/// A copy of a document.
pub fn copy_document(d: &Document) -> (r: Document)
    ensures
        r == *d,
{
    Document {
        id: d.id.clone(),
        title: d.title.clone(),
        path: d.path.clone(),
        source_kind: d.source_kind,
        content: d.content.clone(),
    }
}

/// What parsing makes of a document.
pub open spec fn is_parse_of(p: ParsedDocument, d: Document) -> bool {
    &&& p.document == d
    &&& sections_model(p.sections@) == spec_split_sections(d.content@)
    &&& p.summary@ == spec_first_tokens(d.content@, 40)
    &&& features_of(p.features, d.content@, sections_model(p.sections@))
}

/// Parses a document into sections, a summary of its first forty tokens and
/// its structural signals.
pub fn parse_document(document: &Document) -> (r: ParsedDocument)
    ensures
        is_parse_of(r, *document),
{
    let sections = split_sections(document.content.as_str());
    let summary = first_tokens(document.content.as_str(), 40);
    let features = structural_features(document.content.as_str(), &sections);
    ParsedDocument { document: copy_document(document), sections, summary, features }
}

/// Parses each document in turn.
pub fn parse_documents(documents: &Vec<Document>) -> (r: Vec<ParsedDocument>)
    ensures
        r@.len() == documents@.len(),
        forall|i: int| 0 <= i < r@.len() ==> is_parse_of(#[trigger] r@[i], documents@[i]),
{
    let mut out: Vec<ParsedDocument> = Vec::new();
    let mut i: usize = 0;
    while i < documents.len()
        invariant
            i <= documents.len(),
            out@.len() == i,
            forall|j: int| 0 <= j < i ==> is_parse_of(#[trigger] out@[j], documents@[j]),
        decreases documents.len() - i,
    {
        out.push(parse_document(&documents[i]));
        i += 1;
    }
    out
}

} // verus!
