use afltriage::inputs::{
    collect_dir_testcases, determine_input_type, make_testcase, sort_entries_by_path,
    str_lex_le, DirEntryInfo, PathMeta, UserInputPathType,
};

fn meta() -> PathMeta {
    PathMeta {
        exists: false,
        is_file: false,
        is_dir: false,
        has_fuzzer_stats: false,
        has_queue: false,
        has_crashes: false,
    }
}

fn entry(path: &str, name: &str, is_file: bool) -> DirEntryInfo {
    DirEntryInfo {
        path: path.to_string(),
        file_name: name.to_string(),
        is_file,
    }
}

#[test]
fn classification_covers_every_kind() {
    assert_eq!(determine_input_type(meta()), UserInputPathType::Missing);
    assert_eq!(
        determine_input_type(PathMeta { exists: true, is_file: true, ..meta() }),
        UserInputPathType::Single
    );
    assert_eq!(
        determine_input_type(PathMeta { exists: true, is_dir: true, has_queue: true, ..meta() }),
        UserInputPathType::AflDir
    );
    assert_eq!(
        determine_input_type(PathMeta { exists: true, is_dir: true, has_crashes: true, ..meta() }),
        UserInputPathType::AflDir
    );
    assert_eq!(
        determine_input_type(PathMeta {
            exists: true,
            is_dir: true,
            has_fuzzer_stats: true,
            ..meta()
        }),
        UserInputPathType::AflDir
    );
    assert_eq!(
        determine_input_type(PathMeta { exists: true, is_dir: true, ..meta() }),
        UserInputPathType::PlainDir
    );
    assert_eq!(
        determine_input_type(PathMeta { exists: true, ..meta() }),
        UserInputPathType::Unknown
    );
}

#[test]
fn only_a_directory_can_be_a_fuzzer_directory() {
    // a path that shows a landmark without being a directory itself — for
    // example a bare symlink — stays unknown
    let m = PathMeta { exists: true, has_crashes: true, ..meta() };
    assert_eq!(determine_input_type(m), UserInputPathType::Unknown);
    let m2 = PathMeta { exists: true, has_fuzzer_stats: true, has_queue: true, ..meta() };
    assert_eq!(determine_input_type(m2), UserInputPathType::Unknown);
}

#[test]
fn listings_sort_by_path() {
    let entries = vec![
        entry("/d/c", "c", true),
        entry("/d/a", "a", true),
        entry("/d/b", "b", false),
    ];
    let sorted = sort_entries_by_path(entries);
    let paths: Vec<&str> = sorted.iter().map(|e| e.path.as_str()).collect();
    assert_eq!(paths, vec!["/d/a", "/d/b", "/d/c"]);

    // and a sorted listing yields test cases in that same order
    let tcs = collect_dir_testcases(&sorted, false);
    let tc_paths: Vec<&str> = tcs.iter().map(|t| t.path.as_str()).collect();
    assert_eq!(tc_paths, vec!["/d/a", "/d/c"]);
}

#[test]
fn lexicographic_comparison() {
    assert!(str_lex_le("", ""));
    assert!(str_lex_le("", "a"));
    assert!(!str_lex_le("a", ""));
    assert!(str_lex_le("abc", "abd"));
    assert!(!str_lex_le("abd", "abc"));
    assert!(str_lex_le("ab", "abc"));
    assert!(str_lex_le("abc", "abc"));
}

#[test]
fn classifying_twice_gives_the_same_kind() {
    let m = PathMeta { exists: true, is_dir: true, has_crashes: true, ..meta() };
    assert_eq!(determine_input_type(m), determine_input_type(m));
}

#[test]
fn plain_directory_keeps_regular_files_in_order() {
    let entries = vec![
        entry("/d/a", "a", true),
        entry("/d/sub", "sub", false),
        entry("/d/b", "b", true),
    ];
    let tcs = collect_dir_testcases(&entries, false);
    let paths: Vec<&str> = tcs.iter().map(|t| t.path.as_str()).collect();
    assert_eq!(paths, vec!["/d/a", "/d/b"]);
}

#[test]
fn fuzzer_crashes_directory_excludes_the_readme() {
    let entries = vec![
        entry("/d/crashes/README.txt", "README.txt", true),
        entry("/d/crashes/id:000000", "id:000000", true),
    ];
    let tcs = collect_dir_testcases(&entries, true);
    assert_eq!(tcs.len(), 1);
    assert_eq!(tcs[0].path, "/d/crashes/id:000000");

    // without the exclusion the README is a plain file like any other
    let all = collect_dir_testcases(&entries, false);
    assert_eq!(all.len(), 2);
}

#[test]
fn enumerating_twice_gives_the_same_sequence() {
    let entries = vec![
        entry("/d/x", "x", true),
        entry("/d/y", "y", true),
    ];
    let first: Vec<String> = collect_dir_testcases(&entries, false)
        .into_iter()
        .map(|t| t.path)
        .collect();
    let second: Vec<String> = collect_dir_testcases(&entries, false)
        .into_iter()
        .map(|t| t.path)
        .collect();
    assert_eq!(first, second);
}

#[test]
fn unique_ids_are_stable_hexadecimal_tokens() {
    let a = make_testcase("/t/a".to_string());
    let b = make_testcase("/t/a".to_string());
    let c = make_testcase("/t/b".to_string());
    assert_eq!(a.unique_id, b.unique_id);
    assert_ne!(a.unique_id, c.unique_id);
    assert_eq!(a.unique_id.len(), 16);
    assert!(a.unique_id.chars().all(|ch| ch.is_ascii_hexdigit() && !ch.is_ascii_uppercase()));
    assert_eq!(a.path, "/t/a");
}
