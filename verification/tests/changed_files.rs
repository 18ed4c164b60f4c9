use codex_hooks::changed_files::{
    changed_files, extend_nul_delimited_paths, finalize_and_count, finalize_changed_files,
    query_output, report_changed_files, tracked_files_query, untracked_files_query,
    ChangedFilesReport, FinalizedFiles, QueryOutcome, MAX_CHANGED_FILES,
};
use codex_hooks::path_order::{place_path, Placement};

fn names(names: &[&str]) -> Vec<String> {
    names.iter().map(|name| name.to_string()).collect()
}

#[test]
fn nul_delimited_paths_preserve_embedded_newlines() {
    let mut files = Vec::new();

    let invalid_paths = extend_nul_delimited_paths(&mut files, b"line\nbreak.rs\0normal.rs\0");

    assert_eq!(invalid_paths, 0);
    assert_eq!(
        files,
        vec!["line\nbreak.rs".to_string(), "normal.rs".to_string()]
    );
}

#[test]
fn nul_delimited_paths_skip_invalid_utf8() {
    let mut files = Vec::new();

    let invalid_paths = extend_nul_delimited_paths(&mut files, b"valid.rs\0invalid-\xff.rs\0");

    assert_eq!(invalid_paths, 1);
    assert_eq!(files, vec!["valid.rs".to_string()]);
}

#[test]
fn changed_files_are_sorted_deduplicated_and_bounded() {
    let files = (0..=MAX_CHANGED_FILES)
        .rev()
        .map(|index| format!("file-{index:04}.rs"))
        .chain(std::iter::once("file-0000.rs".to_string()))
        .collect();

    let files = finalize_changed_files(files).expect("non-empty file list");

    assert_eq!(files.len(), MAX_CHANGED_FILES);
    assert_eq!(files.first().map(String::as_str), Some("file-0000.rs"));
    assert_eq!(files.last().map(String::as_str), Some("file-0999.rs"));
}

#[test]
fn no_files_are_unknown() {
    assert_eq!(finalize_changed_files(Vec::new()), None);
    assert_eq!(changed_files(Some(b"\0\0".to_vec()), Some(Vec::new())), None);
    assert_eq!(changed_files(None, Some(b"a\0".to_vec())), None);
    assert_eq!(changed_files(Some(b"a\0".to_vec()), None), None);
}

#[test]
fn outputs_are_merged() {
    assert_eq!(
        changed_files(Some(b"b\0a\0".to_vec()), Some(b"c\0b\0\xc3\xa9\0".to_vec())),
        Some(names(&["a", "b", "c", "\u{e9}"]))
    );
}

#[test]
fn fields_need_no_final_nul() {
    let mut files = names(&["kept"]);
    assert_eq!(extend_nul_delimited_paths(&mut files, b"\0\0a\0\xf0\x9f\0\xc0\x80\0last"), 2);
    assert_eq!(files, names(&["kept", "a", "last"]));
}

#[test]
fn order_of_discovery_makes_no_difference() {
    let sorted = Some(names(&["Z", "a", "a/b", "ab", "b"]));
    assert_eq!(finalize_changed_files(names(&["b", "ab", "a/b", "Z", "a"])), sorted);
    assert_eq!(finalize_changed_files(names(&["a", "b", "a", "a/b", "b", "Z", "ab"])), sorted);
}

#[test]
fn paths_are_ordered_by_their_bytes() {
    let paths = ["", "a", "a\u{7f}", "aa", "b", "\u{e9}", "\u{ffff}", "\u{10000}"];
    for (i, left) in paths.iter().enumerate() {
        for (j, right) in paths.iter().enumerate() {
            let expected = match left.cmp(right) {
                std::cmp::Ordering::Less => Placement::Before,
                std::cmp::Ordering::Equal => Placement::Same,
                std::cmp::Ordering::Greater => Placement::After,
            };
            assert_eq!(place_path(left, right), expected, "{} {}", i, j);
        }
    }
}

#[test]
fn only_successful_queries_have_output() {
    assert_eq!(
        query_output(QueryOutcome::Exited { success: true, stdout: b"a".to_vec() }),
        Some(b"a".to_vec())
    );
    assert_eq!(
        query_output(QueryOutcome::Exited { success: false, stdout: b"a".to_vec() }),
        None
    );
    assert_eq!(query_output(QueryOutcome::NotStarted), None);
    assert_eq!(query_output(QueryOutcome::TimedOut), None);
}

#[test]
fn queries_ask_for_nul_delimited_names() {
    assert_eq!(tracked_files_query(), vec!["diff", "--name-only", "-z", "HEAD"]);
    assert_eq!(
        untracked_files_query(),
        vec!["ls-files", "--others", "--exclude-standard", "-z"]
    );
}

#[test]
fn invalid_paths_of_both_outputs_are_counted() {
    assert_eq!(
        report_changed_files(Some(b"a\0\xff\0".to_vec()), Some(b"\xfe\0a\0\xc0\0".to_vec())),
        ChangedFilesReport {
            files: Some(names(&["a"])),
            found: 2,
            truncated: false,
            invalid_paths: 3,
        }
    );
    assert_eq!(
        report_changed_files(Some(b"\xff\0".to_vec()), None),
        ChangedFilesReport { files: None, found: 0, truncated: false, invalid_paths: 0 }
    );
}

#[test]
fn truncation_is_told() {
    let numbered = |count: usize| (0..count).map(|i| format!("{i:05}")).collect::<Vec<_>>();

    let full = finalize_and_count(numbered(MAX_CHANGED_FILES));
    assert_eq!((full.found, full.truncated), (MAX_CHANGED_FILES, false));

    let mut repeated = numbered(MAX_CHANGED_FILES);
    repeated.push("00000".to_string());
    let repeated = finalize_and_count(repeated);
    assert_eq!((repeated.found, repeated.truncated), (MAX_CHANGED_FILES + 1, false));

    let over = finalize_and_count(numbered(MAX_CHANGED_FILES + 1));
    assert_eq!((over.found, over.truncated), (MAX_CHANGED_FILES + 1, true));
    assert_eq!(over.files, Some(numbered(MAX_CHANGED_FILES)));

    assert_eq!(
        finalize_and_count(Vec::new()),
        FinalizedFiles { files: None, found: 0, truncated: false }
    );
}
