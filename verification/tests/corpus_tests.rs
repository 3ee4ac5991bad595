use citestage::corpus::{
    build_from_entries, build_from_manifest, build_from_paths, document_paths, entry_for_path,
    init_manifest, join_path, manifest_base, paths_manifest, required_paths,
    resolve_document_path, CorpusError, CorpusManifest, FileProbe, ManifestEntry,
};
use citestage::model::SourceKind;

fn file(path: &str, content: &str) -> FileProbe {
    FileProbe { path: path.into(), is_file: true, is_dir: false, content: Some(content.into()) }
}

fn dir(path: &str) -> FileProbe {
    FileProbe { path: path.into(), is_file: false, is_dir: true, content: None }
}

fn entry(id: &str, path: &str) -> ManifestEntry {
    ManifestEntry { id: id.into(), title: id.into(), path: path.into() }
}

#[test]
fn join_path_follows_unix_rules() {
    assert_eq!(join_path("base", "doc.md"), "base/doc.md");
    assert_eq!(join_path("base/", "doc.md"), "base/doc.md");
    assert_eq!(join_path("", "doc.md"), "doc.md");
    assert_eq!(join_path("base", "/abs/doc.md"), "/abs/doc.md");
}

#[test]
fn manifest_base_is_parent_directory() {
    assert_eq!(manifest_base("corpora/corpus.yaml"), "corpora");
    assert_eq!(manifest_base("corpus.yaml"), "");
    assert_eq!(manifest_base("/"), ".");
}

#[test]
fn entries_take_titles_from_file_stems() {
    let e = entry_for_path("docs/my-project_v2.md", "target", "Target Project");
    assert_eq!(e.id, "target");
    assert_eq!(e.title, "my project v2");
    assert_eq!(e.path, "docs/my-project_v2.md");
    let root = entry_for_path("/", "target", "Target Project");
    assert_eq!(root.title, "Target Project");
    let m = init_manifest("repos/some_tool");
    assert_eq!(m.target.title, "some tool");
    assert!(m.competitors.is_empty() && m.distractors.is_empty());
}

#[test]
fn paths_manifest_numbers_roles() {
    let m = paths_manifest("t", &vec!["a".into(), "b".into()], &vec!["z".into()]);
    let ids: Vec<String> = m.competitors.iter().map(|e| e.id.clone()).collect();
    assert_eq!(ids, vec!["competitor-1", "competitor-2"]);
    assert_eq!(m.distractors[0].id, "distractor-1");
}

#[test]
fn resolve_prefers_file_then_readme() {
    let probes = vec![file("base/doc.md", "x"), dir("base/repo"), file("base/repo/readme.md", "y")];
    assert_eq!(resolve_document_path(&probes, "base", "doc.md"), Ok("base/doc.md".to_string()));
    assert_eq!(
        resolve_document_path(&probes, "base", "repo"),
        Ok("base/repo/readme.md".to_string())
    );
    assert_eq!(
        resolve_document_path(&probes, "base", "missing"),
        Err(CorpusError::NotFileOrDirectory("base/missing".into()))
    );
    let empty_dir = vec![dir("base/empty")];
    let err = resolve_document_path(&empty_dir, "base", "empty").unwrap_err();
    assert_eq!(err, CorpusError::NoReadme("base/empty".into()));
    assert_eq!(err.message(), "base/empty has no README.md");
    assert_eq!(
        document_paths("b", "r"),
        vec!["b/r", "b/r/README.md", "b/r/readme.md", "b/r/Readme.md"]
    );
}

#[test]
fn corpus_puts_target_first_then_roles() {
    let manifest = CorpusManifest {
        target: entry("target", "t.md"),
        competitors: vec![entry("c1", "c.md")],
        distractors: vec![entry("d1", "d")],
    };
    let probes = vec![
        file("b/t.md", "target text"),
        file("b/c.md", "competitor text"),
        dir("b/d"),
        file("b/d/README.md", "distractor text"),
    ];
    let corpus = build_from_entries(&probes, "b", &manifest).unwrap();
    assert_eq!(corpus.target_id, "target");
    let got: Vec<(String, SourceKind, String, String)> = corpus
        .documents
        .iter()
        .map(|d| (d.id.clone(), d.source_kind, d.path.clone(), d.content.clone()))
        .collect();
    assert_eq!(
        got,
        vec![
            ("target".into(), SourceKind::Target, "b/t.md".into(), "target text".into()),
            ("c1".into(), SourceKind::Competitor, "b/c.md".into(), "competitor text".into()),
            ("d1".into(), SourceKind::Distractor, "b/d/README.md".into(), "distractor text".into()),
        ]
    );
    let paths = required_paths("b", &manifest);
    assert!(paths.contains(&"b/d/Readme.md".to_string()));
    assert_eq!(paths.len(), 12);
}

#[test]
fn corpus_stops_at_first_unreadable_entry() {
    let manifest = CorpusManifest {
        target: entry("target", "t.md"),
        competitors: vec![entry("c1", "gone.md"), entry("c2", "bad.md")],
        distractors: vec![],
    };
    let probes = vec![
        file("t.md", "x"),
        FileProbe { path: "bad.md".into(), is_file: true, is_dir: false, content: None },
    ];
    let err = build_from_entries(&probes, "", &manifest).unwrap_err();
    assert_eq!(err, CorpusError::NotFileOrDirectory("gone.md".into()));
    assert_eq!(err.message(), "gone.md is not a file or directory");
    let only_bad = CorpusManifest { target: entry("target", "bad.md"), competitors: vec![], distractors: vec![] };
    let err = build_from_entries(&probes, "", &only_bad).unwrap_err();
    assert_eq!(err, CorpusError::Unreadable("bad.md".into()));
    assert_eq!(err.message(), "read bad.md");
}

#[test]
fn corpus_from_manifest_and_paths() {
    let manifest = CorpusManifest { target: entry("target", "t.md"), competitors: vec![], distractors: vec![] };
    let probes = vec![file("corpora/t.md", "hello")];
    let corpus = build_from_manifest(&probes, "corpora/corpus.yaml", &manifest).unwrap();
    assert_eq!(corpus.documents[0].path, "corpora/t.md");

    let probes = vec![file("./t.md", "hello"), file("./c.md", "other")];
    let corpus = build_from_paths(&probes, "t.md", &vec!["c.md".into()], &vec![]).unwrap();
    assert_eq!(corpus.documents.len(), 2);
    assert_eq!(corpus.documents[1].id, "competitor-1");
    assert_eq!(corpus.documents[1].title, "c");
    assert_eq!(corpus.documents[0].title, "t");
}
