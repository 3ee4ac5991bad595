//! Corpus building: manifests of target, competitor and distractor
//! documents, resolved against a snapshot of the file system.
use vstd::prelude::*;
use crate::model::{Corpus, Document, SourceKind};
use crate::text::{concat, decimal, own, push_char, push_str, spec_decimal, chars_of, string_of};

verus! {

// ---------------------------------------------------------------------------
// Paths
// ---------------------------------------------------------------------------

/// The file name of a path without its extension, as `Path::file_stem`
/// gives it.
pub uninterp spec fn spec_file_stem(path: Seq<char>) -> Option<Seq<char>>;

/// The path without its final component, as `Path::parent` gives it.
pub uninterp spec fn spec_path_parent(path: Seq<char>) -> Option<Seq<char>>;

/// Calls `Path::file_stem` on the path and converts the stem to a string.
/// The contract only names the result; the rules for components and
/// extensions are not stated.
#[verifier::external_body]
fn file_stem(path: &str) -> (r: Option<String>)
    ensures
        match r {
            Some(s) => spec_file_stem(path@) == Some(s@),
            None => spec_file_stem(path@) is None,
        },
{
    std::path::Path::new(path).file_stem().map(|s| s.to_string_lossy().into_owned())
}

/// Calls `Path::parent` on the path and converts the parent to a string.
/// The contract only names the result; the rules for components are not
/// stated.
#[verifier::external_body]
fn path_parent(path: &str) -> (r: Option<String>)
    ensures
        match r {
            Some(s) => spec_path_parent(path@) == Some(s@),
            None => spec_path_parent(path@) is None,
        },
{
    std::path::Path::new(path).parent().map(|p| p.to_string_lossy().into_owned())
}

/// `rel` joined onto `base` as `Path::join` joins Unix paths: an absolute
/// `rel` replaces `base`; otherwise a `'/'` goes between them unless `base`
/// is empty or already ends with one.
pub open spec fn spec_join_path(base: Seq<char>, rel: Seq<char>) -> Seq<char> {
    if rel.len() > 0 && rel[0] == '/' {
        rel
    } else if base.len() == 0 || base.last() == '/' {
        base + rel
    } else {
        base + seq!['/'] + rel
    }
}

/// Joins `rel` onto `base`.
pub fn join_path(base: &str, rel: &str) -> (r: String)
    ensures
        r@ == spec_join_path(base@, rel@),
{
    let b = chars_of(base);
    let r = chars_of(rel);
    if r.len() > 0 && r[0] == '/' {
        return string_of(&r);
    }
    let mut out = string_of(&b);
    if b.len() > 0 && b[b.len() - 1] != '/' {
        push_char(&mut out, '/');
    }
    push_str(&mut out, rel);
    out
}

// ---------------------------------------------------------------------------
// Manifests
// ---------------------------------------------------------------------------

/// One document of a manifest.
#[derive(Debug, Clone, PartialEq)]
pub struct ManifestEntry {
    pub id: String,
    pub title: String,
    pub path: String,
}

/// The documents that make up a corpus, by role.
#[derive(Debug, Clone, PartialEq)]
pub struct CorpusManifest {
    pub target: ManifestEntry,
    pub competitors: Vec<ManifestEntry>,
    pub distractors: Vec<ManifestEntry>,
}

/// An entry as plain values: id, title and path.
pub open spec fn entry_model(e: ManifestEntry) -> (Seq<char>, Seq<char>, Seq<char>) {
    (e.id@, e.title@, e.path@)
}

/// `s` with every `'-'` and `'_'` replaced by a space.
pub open spec fn spaced(s: Seq<char>) -> Seq<char> {
    s.map_values(|c: char| if c == '-' || c == '_' {
        ' '
    } else {
        c
    })
}

/// The entry for a path: the path's file stem, or the fallback title when it
/// has none, with dashes and underscores read as spaces.
pub open spec fn spec_entry_for_path(path: Seq<char>, id: Seq<char>, fallback: Seq<char>) -> (
    Seq<char>,
    Seq<char>,
    Seq<char>,
) {
    let stem = match spec_file_stem(path) {
        Some(s) => if s.len() > 0 {
            s
        } else {
            fallback
        },
        None => fallback,
    };
    (id, spaced(stem), path)
}

fn spaced_string(s: &str) -> (r: String)
    ensures
        r@ == spaced(s@),
{
    let cs = chars_of(s);
    let mut out: Vec<char> = Vec::new();
    let mut i: usize = 0;
    while i < cs.len()
        invariant
            i <= cs@.len(),
            cs@ == s@,
            out@ == spaced(cs@.take(i as int)),
        decreases cs@.len() - i,
    {
        let c = cs[i];
        if c == '-' || c == '_' {
            out.push(' ');
        } else {
            out.push(c);
        }
        i += 1;
        assert(out@ =~= spaced(cs@.take(i as int)));
    }
    assert(cs@.take(cs@.len() as int) =~= cs@);
    string_of(&out)
}

/// The manifest entry for a document path.
pub fn entry_for_path(path: &str, id: &str, fallback_title: &str) -> (r: ManifestEntry)
    ensures
        entry_model(r) == spec_entry_for_path(path@, id@, fallback_title@),
{
    let stem = file_stem(path);
    let title = match &stem {
        Some(s) => if !s.as_str().is_empty() {
            spaced_string(s.as_str())
        } else {
            spaced_string(fallback_title)
        },
        None => spaced_string(fallback_title),
    };
    ManifestEntry { id: own(id), title, path: own(path) }
}

/// The manifest of a new corpus: the target path alone, with id "target".
pub fn init_manifest(target: &str) -> (r: CorpusManifest)
    ensures
        entry_model(r.target) == spec_entry_for_path(target@, "target"@, "Target Project"@),
        r.competitors@.len() == 0,
        r.distractors@.len() == 0,
{
    CorpusManifest {
        target: entry_for_path(target, "target", "Target Project"),
        competitors: Vec::new(),
        distractors: Vec::new(),
    }
}

/// The id of the `n`-th (1-based) entry of a role.
pub open spec fn numbered_id(prefix: Seq<char>, n: nat) -> Seq<char> {
    prefix + spec_decimal(n)
}

fn numbered_entries(paths: &Vec<String>, prefix: &str, fallback: &str) -> (r: Vec<ManifestEntry>)
    ensures
        r@.len() == paths@.len(),
        forall|i: int|
            0 <= i < paths@.len() ==> entry_model(#[trigger] r@[i]) == spec_entry_for_path(
                paths@[i]@,
                numbered_id(prefix@, (i + 1) as nat),
                fallback@,
            ),
{
    let mut out: Vec<ManifestEntry> = Vec::new();
    let mut i: usize = 0;
    while i < paths.len()
        invariant
            i <= paths@.len(),
            out@.len() == i,
            forall|k: int|
                0 <= k < i ==> entry_model(#[trigger] out@[k]) == spec_entry_for_path(
                    paths@[k]@,
                    numbered_id(prefix@, (k + 1) as nat),
                    fallback@,
                ),
        decreases paths@.len() - i,
    {
        let n = decimal(i + 1);
        let id = concat(prefix, n.as_str());
        out.push(entry_for_path(paths[i].as_str(), id.as_str(), fallback));
        i += 1;
    }
    out
}

/// The manifest of a target and lists of competitor and distractor paths,
/// numbered from 1 within each role.
pub fn paths_manifest(target: &str, competitors: &Vec<String>, distractors: &Vec<String>) -> (r:
    CorpusManifest)
    ensures
        entry_model(r.target) == spec_entry_for_path(target@, "target"@, "Target Project"@),
        r.competitors@.len() == competitors@.len(),
        forall|i: int|
            0 <= i < competitors@.len() ==> entry_model(#[trigger] r.competitors@[i])
                == spec_entry_for_path(
                competitors@[i]@,
                numbered_id("competitor-"@, (i + 1) as nat),
                "Competitor"@,
            ),
        r.distractors@.len() == distractors@.len(),
        forall|i: int|
            0 <= i < distractors@.len() ==> entry_model(#[trigger] r.distractors@[i])
                == spec_entry_for_path(
                distractors@[i]@,
                numbered_id("distractor-"@, (i + 1) as nat),
                "Distractor"@,
            ),
{
    CorpusManifest {
        target: entry_for_path(target, "target", "Target Project"),
        competitors: numbered_entries(competitors, "competitor-", "Competitor"),
        distractors: numbered_entries(distractors, "distractor-", "Distractor"),
    }
}

// ---------------------------------------------------------------------------
// The file system as observed
// ---------------------------------------------------------------------------

/// What was observed at one path: whether it is a file or a directory, and
/// the text of a file that could be read.
#[derive(Debug, Clone, PartialEq)]
pub struct FileProbe {
    pub path: String,
    pub is_file: bool,
    pub is_dir: bool,
    pub content: Option<String>,
}

/// The first observation of `path`.
pub open spec fn spec_find_probe(probes: Seq<FileProbe>, path: Seq<char>) -> Option<FileProbe>
    decreases probes.len(),
{
    if probes.len() == 0 {
        None
    } else {
        match spec_find_probe(probes.drop_last(), path) {
            Some(p) => Some(p),
            None => if probes.last().path@ == path {
                Some(probes.last())
            } else {
                None
            },
        }
    }
}

/// Whether `path` was observed to be a file.
pub open spec fn observed_file(probes: Seq<FileProbe>, path: Seq<char>) -> bool {
    match spec_find_probe(probes, path) {
        Some(p) => p.is_file,
        None => false,
    }
}

/// Whether `path` was observed to be a directory.
pub open spec fn observed_dir(probes: Seq<FileProbe>, path: Seq<char>) -> bool {
    match spec_find_probe(probes, path) {
        Some(p) => p.is_dir,
        None => false,
    }
}

/// The text read from `path`, when it could be read.
pub open spec fn observed_content(probes: Seq<FileProbe>, path: Seq<char>) -> Option<Seq<char>> {
    match spec_find_probe(probes, path) {
        Some(p) => match p.content {
            Some(c) => Some(c@),
            None => None,
        },
        None => None,
    }
}

fn find_probe<'a>(probes: &'a Vec<FileProbe>, path: &String) -> (r: Option<&'a FileProbe>)
    ensures
        match r {
            Some(p) => spec_find_probe(probes@, path@) == Some(*p),
            None => spec_find_probe(probes@, path@) is None,
        },
{
    let mut i: usize = 0;
    proof {
        assert(probes@.take(0) =~= Seq::<FileProbe>::empty());
    }
    while i < probes.len()
        invariant
            i <= probes@.len(),
            spec_find_probe(probes@.take(i as int), path@) is None,
        decreases probes@.len() - i,
    {
        proof {
            assert(probes@.take(i + 1).drop_last() =~= probes@.take(i as int));
        }
        if probes[i].path == *path {
            proof {
                lemma_find_probe_prefix(probes@, i + 1, path@);
            }
            return Some(&probes[i]);
        }
        i += 1;
    }
    assert(probes@.take(probes@.len() as int) =~= probes@);
    None
}

proof fn lemma_find_probe_prefix(probes: Seq<FileProbe>, i: int, path: Seq<char>)
    requires
        0 <= i <= probes.len(),
        spec_find_probe(probes.take(i), path) is Some,
    ensures
        spec_find_probe(probes, path) == spec_find_probe(probes.take(i), path),
    decreases probes.len() - i,
{
    if i < probes.len() {
        assert(probes.take(i + 1).drop_last() =~= probes.take(i));
        lemma_find_probe_prefix(probes, i + 1, path);
    } else {
        assert(probes.take(i) =~= probes);
    }
}

fn is_file(probes: &Vec<FileProbe>, path: &String) -> (r: bool)
    ensures
        r == observed_file(probes@, path@),
{
    match find_probe(probes, path) {
        Some(p) => p.is_file,
        None => false,
    }
}

fn is_dir(probes: &Vec<FileProbe>, path: &String) -> (r: bool)
    ensures
        r == observed_dir(probes@, path@),
{
    match find_probe(probes, path) {
        Some(p) => p.is_dir,
        None => false,
    }
}

// ---------------------------------------------------------------------------
// Resolving and reading entries
// ---------------------------------------------------------------------------

/// Why a corpus could not be built.
#[derive(Debug, Clone, PartialEq)]
pub enum CorpusError {
    /// The path is neither a file nor a directory.
    NotFileOrDirectory(String),
    /// The directory holds none of the README names.
    NoReadme(String),
    /// The file could not be read.
    Unreadable(String),
    /// The manifest named no document.
    NoDocuments,
}

/// A corpus error as plain values.
pub enum CorpusFailure {
    NotFileOrDirectory(Seq<char>),
    NoReadme(Seq<char>),
    Unreadable(Seq<char>),
    NoDocuments,
}

/// The plain values of a corpus error.
pub open spec fn failure_of(e: CorpusError) -> CorpusFailure {
    match e {
        CorpusError::NotFileOrDirectory(p) => CorpusFailure::NotFileOrDirectory(p@),
        CorpusError::NoReadme(p) => CorpusFailure::NoReadme(p@),
        CorpusError::Unreadable(p) => CorpusFailure::Unreadable(p@),
        CorpusError::NoDocuments => CorpusFailure::NoDocuments,
    }
}

impl CorpusError {
    /// The message that describes this error.
    pub fn message(&self) -> (r: String)
        ensures
            r@ == match failure_of(*self) {
                CorpusFailure::NotFileOrDirectory(p) => p + " is not a file or directory"@,
                CorpusFailure::NoReadme(p) => p + " has no README.md"@,
                CorpusFailure::Unreadable(p) => "read "@ + p,
                CorpusFailure::NoDocuments => "corpus contains no documents"@,
            },
    {
        match self {
            CorpusError::NotFileOrDirectory(p) => concat(p.as_str(), " is not a file or directory"),
            CorpusError::NoReadme(p) => concat(p.as_str(), " has no README.md"),
            CorpusError::Unreadable(p) => concat("read ", p.as_str()),
            CorpusError::NoDocuments => own("corpus contains no documents"),
        }
    }
}

/// The three README names tried in a directory, in order.
pub open spec fn readme_candidates(dir: Seq<char>) -> Seq<Seq<char>> {
    seq![
        spec_join_path(dir, "README.md"@),
        spec_join_path(dir, "readme.md"@),
        spec_join_path(dir, "Readme.md"@),
    ]
}

/// Where a manifest path leads: the joined path when it is a file;
/// otherwise, when it is a directory, the first README in it that is a
/// file.
pub open spec fn spec_resolve(probes: Seq<FileProbe>, base: Seq<char>, raw: Seq<char>) -> Result<
    Seq<char>,
    CorpusFailure,
> {
    let joined = spec_join_path(base, raw);
    let c = readme_candidates(joined);
    if observed_file(probes, joined) {
        Ok(joined)
    } else if !observed_dir(probes, joined) {
        Err(CorpusFailure::NotFileOrDirectory(joined))
    } else if observed_file(probes, c[0]) {
        Ok(c[0])
    } else if observed_file(probes, c[1]) {
        Ok(c[1])
    } else if observed_file(probes, c[2]) {
        Ok(c[2])
    } else {
        Err(CorpusFailure::NoReadme(joined))
    }
}

/// The paths that resolving a manifest path may look at: the joined path
/// and its README candidates.
pub fn document_paths(base: &str, raw: &str) -> (r: Vec<String>)
    ensures
        r.deep_view() == seq![spec_join_path(base@, raw@)] + readme_candidates(
            spec_join_path(base@, raw@),
        ),
{
    let joined = join_path(base, raw);
    let mut out: Vec<String> = Vec::new();
    out.push(join_path(joined.as_str(), "README.md"));
    out.push(join_path(joined.as_str(), "readme.md"));
    out.push(join_path(joined.as_str(), "Readme.md"));
    out.insert(0, joined);
    assert(out.deep_view() =~= seq![spec_join_path(base@, raw@)] + readme_candidates(
        spec_join_path(base@, raw@),
    ));
    out
}

/// Resolves a manifest path against the base directory: a file is taken as
/// it is, a directory by its README.
pub fn resolve_document_path(probes: &Vec<FileProbe>, base: &str, raw: &str) -> (r: Result<
    String,
    CorpusError,
>)
    ensures
        match r {
            Ok(p) => spec_resolve(probes@, base@, raw@) == Ok::<Seq<char>, CorpusFailure>(p@),
            Err(e) => spec_resolve(probes@, base@, raw@) == Err::<Seq<char>, CorpusFailure>(
                failure_of(e),
            ),
        },
{
    let joined = join_path(base, raw);
    if is_file(probes, &joined) {
        return Ok(joined);
    }
    if !is_dir(probes, &joined) {
        return Err(CorpusError::NotFileOrDirectory(joined));
    }
    let c0 = join_path(joined.as_str(), "README.md");
    if is_file(probes, &c0) {
        return Ok(c0);
    }
    let c1 = join_path(joined.as_str(), "readme.md");
    if is_file(probes, &c1) {
        return Ok(c1);
    }
    let c2 = join_path(joined.as_str(), "Readme.md");
    if is_file(probes, &c2) {
        return Ok(c2);
    }
    Err(CorpusError::NoReadme(joined))
}

/// A document as plain values: id, title, path, role and content.
pub type DocModel = (Seq<char>, Seq<char>, Seq<char>, SourceKind, Seq<char>);

/// The plain values of a document.
pub open spec fn doc_model(d: Document) -> DocModel {
    (d.id@, d.title@, d.path@, d.source_kind, d.content@)
}

/// The document that an entry reads to: resolved path, and the text read
/// there.
pub open spec fn spec_read_entry(
    probes: Seq<FileProbe>,
    base: Seq<char>,
    e: (Seq<char>, Seq<char>, Seq<char>),
    kind: SourceKind,
) -> Result<DocModel, CorpusFailure> {
    match spec_resolve(probes, base, e.2) {
        Ok(path) => match observed_content(probes, path) {
            Some(content) => Ok((e.0, e.1, path, kind, content)),
            None => Err(CorpusFailure::Unreadable(path)),
        },
        Err(f) => Err(f),
    }
}

/// Reads the document of one manifest entry.
pub fn read_entry(
    probes: &Vec<FileProbe>,
    base: &str,
    entry: &ManifestEntry,
    source_kind: SourceKind,
) -> (r: Result<Document, CorpusError>)
    ensures
        match r {
            Ok(d) => spec_read_entry(probes@, base@, entry_model(*entry), source_kind) == Ok::<
                DocModel,
                CorpusFailure,
            >(doc_model(d)),
            Err(e) => spec_read_entry(probes@, base@, entry_model(*entry), source_kind) == Err::<
                DocModel,
                CorpusFailure,
            >(failure_of(e)),
        },
{
    let path = match resolve_document_path(probes, base, entry.path.as_str()) {
        Ok(p) => p,
        Err(e) => return Err(e),
    };
    let content = match find_probe(probes, &path) {
        Some(p) => match &p.content {
            Some(c) => c.clone(),
            None => return Err(CorpusError::Unreadable(path)),
        },
        None => return Err(CorpusError::Unreadable(path)),
    };
    Ok(
        Document {
            id: entry.id.clone(),
            title: entry.title.clone(),
            path,
            source_kind,
            content,
        },
    )
}

/// The entries of a manifest with their roles: the target, then the
/// competitors, then the distractors.
pub open spec fn spec_entries(m: CorpusManifest) -> Seq<((Seq<char>, Seq<char>, Seq<char>), SourceKind)> {
    seq![(entry_model(m.target), SourceKind::Target)] + m.competitors@.map_values(
        |e: ManifestEntry| (entry_model(e), SourceKind::Competitor),
    ) + m.distractors@.map_values(|e: ManifestEntry| (entry_model(e), SourceKind::Distractor))
}

/// The documents that the entries read to, or the first entry's failure.
pub open spec fn spec_read_all(
    probes: Seq<FileProbe>,
    base: Seq<char>,
    entries: Seq<((Seq<char>, Seq<char>, Seq<char>), SourceKind)>,
) -> Result<Seq<DocModel>, CorpusFailure>
    decreases entries.len(),
{
    if entries.len() == 0 {
        Ok(Seq::empty())
    } else {
        match spec_read_all(probes, base, entries.drop_last()) {
            Ok(docs) => match spec_read_entry(probes, base, entries.last().0, entries.last().1) {
                Ok(d) => Ok(docs.push(d)),
                Err(f) => Err(f),
            },
            Err(f) => Err(f),
        }
    }
}

/// The corpus that a manifest builds to, or the first entry's failure.
pub open spec fn spec_build(probes: Seq<FileProbe>, base: Seq<char>, m: CorpusManifest) -> Result<
    (Seq<char>, Seq<DocModel>),
    CorpusFailure,
> {
    match spec_read_all(probes, base, spec_entries(m)) {
        Ok(docs) => if docs.len() == 0 {
            Err(CorpusFailure::NoDocuments)
        } else {
            Ok((m.target.id@, docs))
        },
        Err(f) => Err(f),
    }
}

/// A corpus as plain values: target id and documents.
pub open spec fn corpus_model(c: Corpus) -> (Seq<char>, Seq<DocModel>) {
    (c.target_id@, c.documents@.map_values(|d: Document| doc_model(d)))
}

/// Whether a build result is what the manifest builds to.
pub open spec fn is_build_of(
    r: Result<Corpus, CorpusError>,
    probes: Seq<FileProbe>,
    base: Seq<char>,
    m: CorpusManifest,
) -> bool {
    match r {
        Ok(c) => spec_build(probes, base, m) == Ok::<(Seq<char>, Seq<DocModel>), CorpusFailure>(
            corpus_model(c),
        ),
        Err(e) => spec_build(probes, base, m) == Err::<(Seq<char>, Seq<DocModel>), CorpusFailure>(
            failure_of(e),
        ),
    }
}

fn read_entries(
    probes: &Vec<FileProbe>,
    base: &str,
    entries: &Vec<ManifestEntry>,
    kind: SourceKind,
    documents: &mut Vec<Document>,
    Ghost(done): Ghost<Seq<((Seq<char>, Seq<char>, Seq<char>), SourceKind)>>,
) -> (r: Result<(), CorpusError>)
    requires
        spec_read_all(probes@, base@, done) == Ok::<Seq<DocModel>, CorpusFailure>(
            old(documents)@.map_values(|d: Document| doc_model(d)),
        ),
    ensures
        ({
            let all = done + entries@.map_values(
                |e: ManifestEntry| (entry_model(e), kind),
            );
            match r {
                Ok(()) => spec_read_all(probes@, base@, all) == Ok::<Seq<DocModel>, CorpusFailure>(
                    final(documents)@.map_values(|d: Document| doc_model(d)),
                ),
                Err(e) => spec_read_all(probes@, base@, all) == Err::<Seq<DocModel>, CorpusFailure>(
                    failure_of(e),
                ),
            }
        }),
{
    let ghost tail = entries@.map_values(|e: ManifestEntry| (entry_model(e), kind));
    let mut i: usize = 0;
    while i < entries.len()
        invariant
            i <= entries@.len(),
            tail == entries@.map_values(|e: ManifestEntry| (entry_model(e), kind)),
            spec_read_all(probes@, base@, done + tail.take(i as int)) == Ok::<
                Seq<DocModel>,
                CorpusFailure,
            >(documents@.map_values(|d: Document| doc_model(d))),
        decreases entries@.len() - i,
    {
        let ghost prefix = done + tail.take(i as int);
        let ghost next = done + tail.take(i + 1);
        proof {
            assert(next.drop_last() =~= prefix);
            assert(next.last() == (entry_model(entries@[i as int]), kind));
        }
        match read_entry(probes, base, &entries[i], kind) {
            Ok(d) => {
                let ghost before = documents@.map_values(|d: Document| doc_model(d));
                documents.push(d);
                assert(documents@.map_values(|d: Document| doc_model(d)) =~= before.push(
                    doc_model(d),
                ));
            },
            Err(e) => {
                proof {
                    assert(next =~= (done + tail).take(next.len() as int));
                    lemma_read_all_err_extends(probes@, base@, next, done + tail);
                }
                return Err(e);
            },
        }
        i += 1;
    }
    assert(tail.take(entries@.len() as int) =~= tail);
    Ok(())
}

proof fn lemma_read_all_err_extends(
    probes: Seq<FileProbe>,
    base: Seq<char>,
    prefix: Seq<((Seq<char>, Seq<char>, Seq<char>), SourceKind)>,
    all: Seq<((Seq<char>, Seq<char>, Seq<char>), SourceKind)>,
)
    requires
        prefix.len() <= all.len(),
        prefix == all.take(prefix.len() as int),
        spec_read_all(probes, base, prefix) is Err,
    ensures
        spec_read_all(probes, base, all) == spec_read_all(probes, base, prefix),
    decreases all.len() - prefix.len(),
{
    if prefix.len() < all.len() {
        let longer = all.take(prefix.len() as int + 1);
        assert(longer.drop_last() =~= prefix);
        lemma_read_all_err_extends(probes, base, longer, all);
    } else {
        assert(prefix =~= all);
    }
}

/// Builds the corpus of a manifest, reading each entry relative to `base`:
/// the target first, then the competitors, then the distractors. The first
/// entry that cannot be read stops the build.
pub fn build_from_entries(probes: &Vec<FileProbe>, base: &str, manifest: &CorpusManifest) -> (r:
    Result<Corpus, CorpusError>)
    ensures
        is_build_of(r, probes@, base@, *manifest),
{
    let ghost entries = spec_entries(*manifest);
    let ghost first = seq![(entry_model(manifest.target), SourceKind::Target)];
    let ghost comps = manifest.competitors@.map_values(
        |e: ManifestEntry| (entry_model(e), SourceKind::Competitor),
    );
    let ghost dists = manifest.distractors@.map_values(
        |e: ManifestEntry| (entry_model(e), SourceKind::Distractor),
    );
    let mut documents: Vec<Document> = Vec::new();
    proof {
        assert(first.drop_last() =~= Seq::empty());
        assert(spec_read_all(probes@, base@, first.drop_last()) == Ok::<Seq<DocModel>, CorpusFailure>(
            Seq::empty(),
        ));
    }
    let target = match read_entry(probes, base, &manifest.target, SourceKind::Target) {
        Ok(d) => d,
        Err(e) => {
            proof {
                assert(first.drop_last() =~= Seq::empty());
                assert(first =~= entries.take(1));
                lemma_read_all_err_extends(probes@, base@, first, entries);
            }
            return Err(e);
        },
    };
    documents.push(target);
    proof {
        assert(first.drop_last() =~= Seq::empty());
        assert(documents@.map_values(|d: Document| doc_model(d)) =~= seq![doc_model(target)]);
    }
    match read_entries(
        probes,
        base,
        &manifest.competitors,
        SourceKind::Competitor,
        &mut documents,
        Ghost(first),
    ) {
        Ok(()) => {},
        Err(e) => {
            proof {
                assert((first + comps) =~= entries.take((first + comps).len() as int));
                lemma_read_all_err_extends(probes@, base@, first + comps, entries);
            }
            return Err(e);
        },
    }
    match read_entries(
        probes,
        base,
        &manifest.distractors,
        SourceKind::Distractor,
        &mut documents,
        Ghost(first + comps),
    ) {
        Ok(()) => {},
        Err(e) => {
            proof {
                assert(first + comps + dists =~= entries);
            }
            return Err(e);
        },
    }
    proof {
        assert(first + comps + dists =~= entries);
    }
    if documents.len() == 0 {
        return Err(CorpusError::NoDocuments);
    }
    Ok(Corpus { target_id: manifest.target.id.clone(), documents })
}

/// The paths that resolving the entries relative to `base` may look at:
/// for each entry, its joined path and that path's README candidates.
pub open spec fn spec_required_paths(
    base: Seq<char>,
    entries: Seq<((Seq<char>, Seq<char>, Seq<char>), SourceKind)>,
) -> Seq<Seq<char>>
    decreases entries.len(),
{
    if entries.len() == 0 {
        Seq::empty()
    } else {
        let joined = spec_join_path(base, entries.last().0.2);
        spec_required_paths(base, entries.drop_last()) + seq![joined] + readme_candidates(joined)
    }
}

fn append_entry_paths(
    out: &mut Vec<String>,
    base: &str,
    e: &ManifestEntry,
    kind: SourceKind,
    Ghost(done): Ghost<Seq<((Seq<char>, Seq<char>, Seq<char>), SourceKind)>>,
)
    requires
        old(out).deep_view() == spec_required_paths(base@, done),
    ensures
        final(out).deep_view() == spec_required_paths(base@, done.push((entry_model(*e), kind))),
{
    let mut paths = document_paths(base, e.path.as_str());
    let ghost before = out.deep_view();
    let ghost added = paths.deep_view();
    out.append(&mut paths);
    proof {
        let next = done.push((entry_model(*e), kind));
        assert(next.drop_last() =~= done);
        assert(out.deep_view() =~= before + added);
        assert(out.deep_view() =~= spec_required_paths(base@, next));
    }
}

/// The paths that building a manifest relative to `base` may look at, entry
/// by entry.
pub fn required_paths(base: &str, manifest: &CorpusManifest) -> (r: Vec<String>)
    ensures
        r.deep_view() == spec_required_paths(base@, spec_entries(*manifest)),
{
    let ghost entries = spec_entries(*manifest);
    let ghost c = manifest.competitors@.len() as int;
    let mut out: Vec<String> = Vec::new();
    proof {
        assert(entries.take(0) =~= Seq::empty());
        assert(out.deep_view() =~= Seq::<Seq<char>>::empty());
    }
    append_entry_paths(&mut out, base, &manifest.target, SourceKind::Target, Ghost(entries.take(0)));
    assert(entries.take(0).push((entry_model(manifest.target), SourceKind::Target)) =~= entries.take(1));
    let mut i: usize = 0;
    while i < manifest.competitors.len()
        invariant
            i <= manifest.competitors@.len(),
            c == manifest.competitors@.len(),
            entries == spec_entries(*manifest),
            out.deep_view() == spec_required_paths(base@, entries.take(1 + i)),
        decreases manifest.competitors@.len() - i,
    {
        append_entry_paths(&mut out, base, &manifest.competitors[i], SourceKind::Competitor, Ghost(entries.take(1 + i)));
        assert(entries.take(1 + i).push((entry_model(manifest.competitors@[i as int]), SourceKind::Competitor)) =~= entries.take(1 + i + 1));
        i += 1;
    }
    let mut j: usize = 0;
    while j < manifest.distractors.len()
        invariant
            j <= manifest.distractors@.len(),
            c == manifest.competitors@.len(),
            entries == spec_entries(*manifest),
            out.deep_view() == spec_required_paths(base@, entries.take(1 + c + j)),
        decreases manifest.distractors@.len() - j,
    {
        append_entry_paths(&mut out, base, &manifest.distractors[j], SourceKind::Distractor, Ghost(entries.take(1 + c + j)));
        assert(entries.take(1 + c + j).push((entry_model(manifest.distractors@[j as int]), SourceKind::Distractor)) =~= entries.take(1 + c + j + 1));
        j += 1;
    }
    assert(entries.take(1 + c + manifest.distractors@.len()) =~= entries);
    out
}

/// The directory against which a manifest's paths are read: the manifest's
/// parent directory, or "." when it has none.
pub open spec fn spec_manifest_base(manifest_path: Seq<char>) -> Seq<char> {
    match spec_path_parent(manifest_path) {
        Some(p) => p,
        None => "."@,
    }
}

/// The directory against which a manifest's paths are read.
pub fn manifest_base(manifest_path: &str) -> (r: String)
    ensures
        r@ == spec_manifest_base(manifest_path@),
{
    match path_parent(manifest_path) {
        Some(p) => p,
        None => own("."),
    }
}

/// Builds the corpus of a manifest read from `manifest_path`, resolving its
/// paths against the manifest's directory.
pub fn build_from_manifest(
    probes: &Vec<FileProbe>,
    manifest_path: &str,
    manifest: &CorpusManifest,
) -> (r: Result<Corpus, CorpusError>)
    ensures
        is_build_of(r, probes@, spec_manifest_base(manifest_path@), *manifest),
{
    let base = manifest_base(manifest_path);
    build_from_entries(probes, base.as_str(), manifest)
}

/// Builds the corpus of a target and competitor and distractor paths,
/// resolving them against the working directory.
pub fn build_from_paths(
    probes: &Vec<FileProbe>,
    target: &str,
    competitors: &Vec<String>,
    distractors: &Vec<String>,
) -> (r: Result<Corpus, CorpusError>)
    ensures
        exists|m: CorpusManifest|
            {
                &&& entry_model(m.target) == spec_entry_for_path(
                    target@,
                    "target"@,
                    "Target Project"@,
                )
                &&& m.competitors@.len() == competitors@.len()
                &&& forall|i: int|
                    0 <= i < competitors@.len() ==> entry_model(#[trigger] m.competitors@[i])
                        == spec_entry_for_path(
                        competitors@[i]@,
                        numbered_id("competitor-"@, (i + 1) as nat),
                        "Competitor"@,
                    )
                &&& m.distractors@.len() == distractors@.len()
                &&& forall|i: int|
                    0 <= i < distractors@.len() ==> entry_model(#[trigger] m.distractors@[i])
                        == spec_entry_for_path(
                        distractors@[i]@,
                        numbered_id("distractor-"@, (i + 1) as nat),
                        "Distractor"@,
                    )
                &&& is_build_of(r, probes@, "."@, m)
            },
{
    let manifest = paths_manifest(target, competitors, distractors);
    build_from_entries(probes, ".", &manifest)
}

} // verus!
