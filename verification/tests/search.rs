use clipsync::classify::PathStatus;
use clipsync::search::{
    candidate_drives, contains, drives_or_default, is_root_drive, is_skipped_name, needs_second_pass,
    prepare_search, record, search_root, should_search_from_root, should_visit_entry, FileResult,
    NameFilter, SearchError, SearchStrategy, FIRST_PASS_DEPTH, MAX_RESULTS, ROOT_DEPTH,
    SECOND_PASS_DEPTH,
};

fn plain(query: &str, match_case: bool) -> NameFilter {
    NameFilter { query: query.to_string(), is_regex: false, match_case }
}

fn pattern(query: &str, match_case: bool) -> NameFilter {
    NameFilter { query: query.to_string(), is_regex: true, match_case }
}

fn result(name: &str) -> FileResult {
    FileResult { name: name.to_string(), path: format!("/x/{}", name), is_dir: false }
}

#[test]
fn skipped_directories() {
    let skipped = [
        "$RECYCLE.BIN",
        "System Volume Information",
        "WindowsApps",
        "$Windows.~BT",
        "Windows",
        "ProgramData",
        "node_modules",
        ".git",
        ".idea",
        ".vscode",
        "__pycache__",
        "target",
        "build",
        "dist",
        ".cache",
        "cache",
    ];
    for name in skipped {
        assert!(is_skipped_name(name), "{}", name);
        assert!(!should_visit_entry(name), "{}", name);
    }
    for name in ["", "windows", "Target", "src", "cache2", "node_module", "Program Files"] {
        assert!(!is_skipped_name(name), "{}", name);
    }
}

#[test]
fn hidden_entries_are_not_visited() {
    for name in [".", ".hidden", "$", "$Recycle", ".gitignore"] {
        assert!(!should_visit_entry(name), "{}", name);
    }
    for name in ["", "src", "a.b", "a$", "Documents", "Program Files", "README.md"] {
        assert!(should_visit_entry(name), "{}", name);
    }
}

#[test]
fn program_directories_are_not_searched_from_the_root() {
    for name in ["Program Files", "Program Files (x86)", "Windows", ".git", "$Recycle.Bin", "target"] {
        assert!(!should_search_from_root(name), "{}", name);
    }
    for name in ["Users", "Program Files (x64)", "program files", "Games", "home"] {
        assert!(should_search_from_root(name), "{}", name);
    }
}

#[test]
fn roots_of_drives() {
    for path in ["C:\\", "/", "z:\\", ":\\", "\\\\?\\C:\\"] {
        assert!(is_root_drive(path), "{:?}", path);
    }
    for path in ["", "C:", "C:\\Users", "C:\\\\", "//", "/home", "C:/", "\\"] {
        assert!(!is_root_drive(path), "{:?}", path);
    }
}

#[test]
fn contains_is_that_of_std() {
    let hays = ["", "a", "abc", "aaa", "abcabc", "report.docx", "日本語のファイル", "a😀b"];
    let needles = ["", "a", "b", "c", "ab", "bc", "abc", "abcd", "aa", "aaaa", "cab", "語の", "😀", ".docx", "x"];
    for hay in hays {
        for needle in needles {
            assert_eq!(contains(hay, needle), hay.contains(needle), "{:?} in {:?}", needle, hay);
        }
    }
}

#[test]
fn a_text_is_found_in_a_name() {
    assert!(plain("Report", true).matches("Annual Report.docx"));
    assert!(!plain("report", true).matches("Annual Report.docx"));
    assert!(plain("report", false).matches("Annual Report.docx"));
    assert!(plain("report", false).matches("REPORT"));
    assert!(!plain("Report", false).matches("Annual Report.docx"));
    assert!(plain("straße", false).matches("STRASSE und Straße"));
    // The last sigma of a word has a lower case of its own.
    assert!(plain("ἀς", false).matches("ἈΣ"));
    assert!(!plain("ἀσ", false).matches("ἈΣ"));
}

#[test]
fn a_pattern_is_matched_in_a_name() {
    assert!(pattern("^a.*\\.txt$", true).matches("abc.txt"));
    assert!(!pattern("^a.*\\.txt$", true).matches("Abc.txt"));
    assert!(pattern("^a.*\\.txt$", false).matches("Abc.TXT"));
    assert!(pattern("\\d{4}", true).matches("report-2024.pdf"));
    assert!(!pattern("\\d{4}", true).matches("report-24.pdf"));
    assert!(pattern("é", false).matches("CAFÉ"));
    assert!(pattern("^.$", true).matches("😀"));
}

#[test]
fn a_pattern_that_does_not_compile_matches_nothing() {
    assert!(!pattern("(", true).matches("("));
    assert!(!pattern("[a", false).matches("a"));
}

#[test]
fn a_blank_query_asks_for_nothing() {
    for query in ["", " ", "\t\n "] {
        for status in [PathStatus::Missing, PathStatus::Directory] {
            assert!(matches!(prepare_search(query, "C:\\x", true, false, "C:\\", status), Ok(None)));
        }
    }
}

#[test]
fn the_root_must_exist() {
    let error = prepare_search("a", "C:\\gone", false, false, "C:\\", PathStatus::Missing).unwrap_err();
    assert_eq!(error, SearchError::RootMissing("C:\\gone".to_string()));
    assert_eq!(error.message(), "路径不存在: C:\\gone");
    let error = prepare_search("(", "", true, false, "/", PathStatus::Missing).unwrap_err();
    assert_eq!(error.message(), "路径不存在: ");
}

#[test]
fn a_pattern_must_compile() {
    let error = prepare_search(" ( ", "C:\\x", true, false, "C:\\", PathStatus::Directory).unwrap_err();
    let expected = regex::RegexBuilder::new("(").case_insensitive(true).build().unwrap_err().to_string();
    assert_eq!(error, SearchError::InvalidPattern(expected.clone()));
    assert_eq!(error.message(), format!("正则语法错误: {}", expected));
    assert!(prepare_search("(", "C:\\x", false, false, "C:\\", PathStatus::Directory).is_ok());
}

#[test]
fn a_search_is_made_ready() {
    let request = prepare_search("  Report ", "D:\\docs", false, false, "C:\\", PathStatus::Directory)
        .unwrap()
        .unwrap();
    assert_eq!(request.root, "D:\\docs");
    assert_eq!(request.filter.query, "report");
    assert!(!request.filter.is_regex);
    assert!(!request.filter.match_case);
    assert_eq!(request.strategy, SearchStrategy::Layered);

    let request = prepare_search("  Report ", "", false, true, "C:\\", PathStatus::Directory).unwrap().unwrap();
    assert_eq!(request.root, "C:\\");
    assert_eq!(request.filter.query, "Report");
    assert_eq!(request.strategy, SearchStrategy::FromRoot);

    let request = prepare_search(" ^A ", "/", true, false, "/", PathStatus::Directory).unwrap().unwrap();
    assert_eq!(request.filter.query, "^A");
    assert!(request.filter.is_regex);
    assert_eq!(request.strategy, SearchStrategy::FromRoot);
}

#[test]
fn the_root_is_the_one_asked_for_or_the_default() {
    assert_eq!(search_root("", "C:\\"), "C:\\");
    assert_eq!(search_root("D:\\x", "C:\\"), "D:\\x");
    assert_eq!(search_root(" ", "/"), " ");
}

#[test]
fn results_are_gathered_up_to_the_limit() {
    let mut results = Vec::new();
    for i in 0..MAX_RESULTS {
        assert!(!record(&mut results, result(&i.to_string())));
        assert_eq!(results.len(), i + 1);
    }
    assert!(record(&mut results, result("one too many")));
    assert!(record(&mut results, result("and another")));
    assert_eq!(results.len(), 300);
    assert_eq!(results[299].name, "299");
    assert_eq!(results[0].name, "0");
}

#[test]
fn the_second_pass_is_made_where_little_was_found() {
    assert!(needs_second_pass(0, false));
    assert!(needs_second_pass(149, false));
    assert!(!needs_second_pass(150, false));
    assert!(!needs_second_pass(300, false));
    assert!(!needs_second_pass(0, true));
    assert_eq!((ROOT_DEPTH, FIRST_PASS_DEPTH, SECOND_PASS_DEPTH), (6, 4, 8));
}

#[test]
fn drives_from_a_to_z() {
    let drives = candidate_drives();
    assert_eq!(drives.len(), 26);
    assert_eq!(drives[0], "A:\\");
    assert_eq!(drives[2], "C:\\");
    assert_eq!(drives[25], "Z:\\");
    for (i, drive) in drives.iter().enumerate() {
        assert_eq!(*drive, format!("{}:\\", (b'A' + i as u8) as char));
    }
}

#[test]
fn the_drive_c_stands_in_where_none_was_found() {
    assert_eq!(drives_or_default(vec![]), vec!["C:\\"]);
    assert_eq!(drives_or_default(vec!["D:\\".to_string()]), vec!["D:\\"]);
    assert_eq!(drives_or_default(vec!["/".to_string()]), vec!["/"]);
}
