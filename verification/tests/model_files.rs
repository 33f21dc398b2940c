use pasithea::model_files::{choose_model_files, describe_entries, find_model_files, DescribedEntry, DirEntryInfo};

fn entry(path: &str, is_file: bool) -> DirEntryInfo {
    DirEntryInfo { path: path.to_string(), is_file, utf8: true }
}

#[test]
fn default_model_when_none_listed() {
    let f = find_model_files("models", &vec![entry("models/readme.txt", true)]);
    assert!(f.model.path.ends_with("output_graph.pb"));
    assert!(f.model.path.starts_with("models"));
    assert!(f.model.utf8);
    assert!(f.scorer.is_none());
}

#[test]
fn last_model_and_scorer_win() {
    let entries = vec![
        entry("models/a.pb", true),
        entry("models/kenlm.scorer", true),
        entry("models/b.tflite", true),
        entry("models/dir.pbmm", false),
        entry("models/c.pbmm.txt", true),
        entry("models/other.scorer", true),
    ];
    let f = find_model_files("models", &entries);
    assert_eq!(f.model.path, "models/b.tflite");
    assert_eq!(f.scorer.unwrap().path, "models/other.scorer");
}

#[test]
fn extensions_are_read_from_paths() {
    let d = describe_entries(&vec![entry("m/x.pbmm", true), entry("m/noext", true), entry("m/.hidden", true)]);
    assert_eq!(d[0].extension.as_deref(), Some("pbmm"));
    assert_eq!(d[1].extension, None);
    assert_eq!(d[2].extension, None);
}

#[test]
fn non_utf8_choice_is_flagged() {
    let entries = vec![DescribedEntry {
        path: "m/\u{fffd}.pb".to_string(),
        is_file: true,
        utf8: false,
        extension: Some("pb".to_string()),
    }];
    let f = choose_model_files("m/output_graph.pb".to_string(), &entries);
    assert!(!f.model.utf8);
    assert_eq!(f.model.path, "m/\u{fffd}.pb");
}

#[test]
fn default_model_joins_directory() {
    let f = find_model_files("", &vec![]);
    assert_eq!(f.model.path, "output_graph.pb");
    let f = find_model_files("models/", &vec![]);
    assert_eq!(f.model.path, "models/output_graph.pb");
    let f = find_model_files("a/models", &vec![]);
    assert!(f.model.path == "a/models/output_graph.pb" || f.model.path == "a/models\\output_graph.pb");
}

#[test]
fn extension_follows_last_dot_of_name() {
    let d = describe_entries(&vec![
        entry("m/..", false),
        entry("m/a.", true),
        entry("m/.a.b", true),
        entry("x.y/name", true),
        entry("a.tar.gz", true),
    ]);
    assert_eq!(d[0].extension, None);
    assert_eq!(d[1].extension.as_deref(), Some(""));
    assert_eq!(d[2].extension.as_deref(), Some("b"));
    assert_eq!(d[3].extension, None);
    assert_eq!(d[4].extension.as_deref(), Some("gz"));
}

#[test]
fn only_exact_extensions_of_files_count() {
    let entries = vec![
        entry("models/sub", false),
        entry("models/d.pb", false),
        entry("models/m.PB", true),
        entry("models/m.pb.bak", true),
    ];
    let f = find_model_files("models", &entries);
    assert_eq!(f.model.path, "models/output_graph.pb");
    assert!(f.scorer.is_none());
}

#[test]
fn backslash_listing_chooses_by_last_extension() {
    let entries = vec![
        entry("models\\x.pbmm", true),
        entry("models\\y.scorer", true),
        entry("models\\m.pb.bak", true),
    ];
    let f = find_model_files("models", &entries);
    assert_eq!(f.model.path, "models\\x.pbmm");
    assert_eq!(f.scorer.unwrap().path, "models\\y.scorer");
}
