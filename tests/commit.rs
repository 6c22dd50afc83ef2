use actions_commit::content::{blob_content_id, blob_object_bytes};
use actions_commit::error::CommitError;
use actions_commit::options::{check_source_root, CommitOptions};
use actions_commit::paths::{destination, RelPath};
use actions_commit::plan::{
    classify_mode, decide_commit, plan_entries, CommitAction, LocalFile, PathRules, EXECUTABLE_MODE,
    REGULAR_MODE,
};
use actions_commit::select::{contains_path, select_candidates, unchanged_paths, RemoteBlob};
use actions_commit::tree::{scan_listing, RemoteEntry};

fn path(s: &str) -> RelPath {
    RelPath::new(s.split('/').filter(|c| !c.is_empty()).map(String::from).collect())
}

fn text(p: &RelPath) -> String {
    p.parts.join("/")
}

fn texts(v: &[RelPath]) -> Vec<String> {
    let mut r: Vec<String> = v.iter().map(text).collect();
    r.sort();
    r
}

fn rules(source: Option<&str>, flatten: bool, target: Option<&str>) -> PathRules {
    PathRules { source: source.map(path), flatten, target: target.map(path) }
}

fn file(p: &str, mode: u32) -> LocalFile {
    LocalFile { path: path(p), mode }
}

#[test]
fn empty_blob_has_known_content_id() {
    assert_eq!(blob_content_id(&[]), "e69de29bb2d1d6434b8b29ae775ad8c2e48c5391");
}

#[test]
fn text_blob_has_known_content_id() {
    assert_eq!(blob_content_id(b"hello\n"), "ce013625030ba8dba906f756967f9e9ca394464a");
}

#[test]
fn blob_object_has_header() {
    assert_eq!(blob_object_bytes(b"ab"), b"blob 2\0ab".to_vec());
    let long = vec![7u8; 1234];
    let object = blob_object_bytes(&long);
    assert_eq!(&object[..10], b"blob 1234\0");
    assert_eq!(object.len(), 1244);
}

#[test]
fn hashing_is_deterministic() {
    let data = b"some file content".to_vec();
    assert_eq!(blob_content_id(&data), blob_content_id(&data.clone()));
    assert_ne!(blob_content_id(b"a"), blob_content_id(b"b"));
    assert_eq!(blob_content_id(b"x").len(), 40);
}

#[test]
fn selector_applies_include_and_exclude() {
    let included = vec![path("a.txt"), path("secret.txt")];
    let excluded = vec![path("secret.txt")];
    let r = select_candidates(&included, &excluded, &Vec::new());
    assert_eq!(texts(&r), vec!["a.txt".to_string()]);
}

#[test]
fn selector_collapses_duplicates_and_skips_unchanged() {
    let included = vec![path("a.txt"), path("b.txt"), path("a.txt"), path("c/d.txt")];
    let unchanged = vec![path("b.txt")];
    let excluded = vec![path("missing.txt")];
    let r = select_candidates(&included, &excluded, &unchanged);
    assert_eq!(texts(&r), vec!["a.txt".to_string(), "c/d.txt".to_string()]);
}

#[test]
fn selector_without_includes_is_empty() {
    let r = select_candidates(&Vec::new(), &vec![path("a.txt")], &Vec::new());
    assert!(r.is_empty());
}

#[test]
fn unchanged_needs_equal_content_id() {
    let remote = vec![
        RemoteBlob { path: path("a.txt"), content_id: "11".to_string(), mode: REGULAR_MODE },
        RemoteBlob { path: path("b/c.txt"), content_id: "22".to_string(), mode: REGULAR_MODE },
        RemoteBlob { path: path("d.txt"), content_id: "33".to_string(), mode: REGULAR_MODE },
    ];
    let local = vec![Some("11".to_string()), Some("99".to_string()), None];
    let r = unchanged_paths(&remote, &local);
    assert_eq!(texts(&r), vec!["a.txt".to_string()]);
}

#[test]
fn all_unchanged_keeps_base_commit() {
    let remote = vec![RemoteBlob { path: path("a.txt"), content_id: "11".to_string(), mode: REGULAR_MODE }];
    let unchanged = unchanged_paths(&remote, &vec![Some("11".to_string())]);
    let candidates = select_candidates(&vec![path("a.txt")], &Vec::new(), &unchanged);
    assert!(candidates.is_empty());
    assert!(matches!(decide_commit(Some(false), candidates.len()), CommitAction::KeepBase));
    assert!(matches!(decide_commit(None, candidates.len()), CommitAction::KeepBase));
}

#[test]
fn commit_gate_table() {
    assert!(matches!(decide_commit(Some(false), 0), CommitAction::KeepBase));
    assert!(matches!(decide_commit(None, 0), CommitAction::KeepBase));
    assert!(matches!(decide_commit(Some(false), 2), CommitAction::CommitMergedTree));
    assert!(matches!(decide_commit(Some(true), 0), CommitAction::CommitBaseTree));
    assert!(matches!(decide_commit(Some(true), 1), CommitAction::CommitMergedTree));
}

#[test]
fn destination_strips_flattens_and_prefixes() {
    let p = path("build/a/x.txt");
    let d = destination(&p, &Some(path("build")), false, &None).unwrap();
    assert_eq!(text(&d), "a/x.txt");
    let d = destination(&p, &None, true, &None).unwrap();
    assert_eq!(text(&d), "x.txt");
    let d = destination(&p, &Some(path("build")), true, &Some(path("dist"))).unwrap();
    assert_eq!(text(&d), "dist/x.txt");
    let d = destination(&path("x.txt"), &None, true, &Some(path("out/site"))).unwrap();
    assert_eq!(text(&d), "out/site/x.txt");
    assert!(destination(&p, &Some(path("src")), false, &None).is_none());
    let d = destination(&RelPath::empty(), &None, true, &None).unwrap();
    assert!(d.parts.is_empty());
}

#[test]
fn flattening_conflict_fails_plan() {
    let files = vec![file("build/a/x.txt", 0o644), file("build/b/x.txt", 0o644)];
    let r = plan_entries(&files, &rules(None, true, Some("dist")));
    match r {
        Err(CommitError::PathConflict { path: p, other }) => {
            assert_eq!(text(&p), "build/b/x.txt");
            assert_eq!(text(&other), "build/a/x.txt");
        },
        _ => panic!("expected a path conflict"),
    }
}

#[test]
fn plan_reports_path_outside_source() {
    let files = vec![file("build/a.txt", 0o644), file("other/b.txt", 0o644)];
    let r = plan_entries(&files, &rules(Some("build"), false, None));
    match r {
        Err(CommitError::PathTransformError { path: p }) => assert_eq!(text(&p), "other/b.txt"),
        _ => panic!("expected a path transform error"),
    }
}

#[test]
fn plan_reports_unsupported_mode() {
    let files = vec![file("a.txt", 0o644), file("b.txt", 0o200)];
    let r = plan_entries(&files, &rules(None, false, None));
    assert!(matches!(r, Err(CommitError::UnsupportedMode { mode: 0o200 })));
}

#[test]
fn plan_places_each_file() {
    let files = vec![file("build/run.sh", 0o755), file("build/doc/readme.md", 0o644)];
    let r = plan_entries(&files, &rules(Some("build"), false, Some("dist"))).ok().unwrap();
    assert_eq!(r.len(), 2);
    assert_eq!(text(&r[0].source), "build/run.sh");
    assert_eq!(text(&r[0].destination), "dist/run.sh");
    assert_eq!(r[0].mode, EXECUTABLE_MODE);
    assert_eq!(text(&r[1].destination), "dist/doc/readme.md");
    assert_eq!(r[1].mode, REGULAR_MODE);
}

#[test]
fn mode_classification() {
    assert_eq!(classify_mode(0o755).ok(), Some(0o100755));
    assert_eq!(classify_mode(0o100).ok(), Some(0o100755));
    assert_eq!(classify_mode(0o644).ok(), Some(0o100644));
    assert_eq!(classify_mode(0o400).ok(), Some(0o100644));
    assert!(matches!(classify_mode(0o200), Err(CommitError::UnsupportedMode { mode: 0o200 })));
    assert!(matches!(classify_mode(0), Err(CommitError::UnsupportedMode { mode: 0 })));
}

#[test]
fn scan_prefixes_subtree_blobs_and_records_failures() {
    let top = vec![
        RemoteEntry::Blob { path: path("a.txt"), content_id: "1".to_string(), mode: REGULAR_MODE },
        RemoteEntry::Tree { path: path("lib"), content_id: "2".to_string() },
        RemoteEntry::Tree { path: path("gone"), content_id: "3".to_string() },
    ];
    let sub = vec![
        RemoteEntry::Tree { path: path("inner"), content_id: "4".to_string() },
        RemoteEntry::Blob { path: path("inner/b.rs"), content_id: "5".to_string(), mode: EXECUTABLE_MODE },
    ];
    let fetched = vec![None, Some(sub), None];
    let r = scan_listing(&top, &fetched);
    assert_eq!(r.blobs.len(), 2);
    assert_eq!(text(&r.blobs[0].path), "a.txt");
    assert_eq!(text(&r.blobs[1].path), "lib/inner/b.rs");
    assert_eq!(r.blobs[1].content_id, "5");
    assert_eq!(r.blobs[1].mode, EXECUTABLE_MODE);
    assert_eq!(r.failed.len(), 1);
    assert_eq!(text(&r.failed[0]), "gone");
}

#[test]
fn options_need_a_message() {
    assert!(matches!(CommitOptions::new(""), Err(CommitError::MissingConfiguration { .. })));
    let o = CommitOptions::new("msg").ok().unwrap();
    assert_eq!(o.message, "msg");
    assert_eq!(o.always, Some(false));
    assert!(o.force.is_none() && o.flatten.is_none());
}

#[test]
fn options_builders_set_fields() {
    let o = CommitOptions::new("msg")
        .ok()
        .unwrap()
        .with_always_commit(Some(true))
        .with_force(Some(true))
        .with_flattening(Some(true))
        .with_source_directory(Some(path("build")))
        .with_target_directory(Some(path("dist")))
        .with_include(Some(vec![glob::Pattern::new("*.txt").unwrap()]))
        .with_exclude(None);
    assert_eq!(o.always, Some(true));
    assert_eq!(o.force, Some(true));
    assert_eq!(o.included.as_ref().unwrap()[0].as_str(), "*.txt");
    assert!(o.excluded.is_none());
    let r = o.path_rules();
    assert!(r.flatten);
    assert_eq!(text(r.source.as_ref().unwrap()), "build");
    assert_eq!(text(r.target.as_ref().unwrap()), "dist");
}

#[test]
fn source_root_must_be_in_workspace() {
    let ws = path("home/runner/work");
    assert!(check_source_root(&ws, &path("home/runner/work/build")).is_ok());
    assert!(check_source_root(&ws, &path("home/runner/work")).is_ok());
    assert!(matches!(
        check_source_root(&ws, &path("home/runner/other")),
        Err(CommitError::WorkspaceBoundaryViolation { .. })
    ));
}

#[test]
fn path_helpers() {
    let v = vec![path("a/b"), path("c")];
    assert!(contains_path(&v, &path("a/b")));
    assert!(!contains_path(&v, &path("a")));
    assert!(path("a/b").same(&path("a/b")));
    assert!(!path("a/b").same(&path("a/c")));
    assert_eq!(text(&path("a/b/c").strip_prefix(&path("a")).unwrap()), "b/c");
    assert!(path("ab/c").strip_prefix(&path("a")).is_none());
    assert_eq!(text(&path("a").join(&path("b/c"))), "a/b/c");
}
