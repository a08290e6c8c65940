use batch_run::entry::{
    expand_globs, is_pattern, resolve_entry, sort_paths, Entry, ExpandedEntry, Expected,
};
use batch_run::error::{EntryError, EntryFailed};

fn found(paths: &[&str]) -> Result<Vec<Result<String, String>>, String> {
    Ok(paths.iter().map(|p| Ok(String::from(*p))).collect())
}

fn paths_of(entries: &[ExpandedEntry]) -> Vec<String> {
    entries.iter().map(|e| String::from(e.path())).collect()
}

#[test]
fn expectation_kinds() {
    assert!(Expected::RunMatch.is_run_pass());
    assert!(!Expected::CompileFail.is_run_pass());
    let entry = Entry::new("tests/a.rs", Expected::CompileFail);
    assert_eq!(entry.path(), "tests/a.rs");
    assert_eq!(entry.expected(), Expected::CompileFail);
    assert_eq!(entry.duplicate(), entry);
}

#[test]
fn entry_without_wildcard_resolves_to_itself() {
    for path in ["tests/a.rs", "", "weird [name]?.rs", "tests/ui-runner/main.rs"] {
        for expected in [Expected::RunMatch, Expected::CompileFail] {
            let entry = Entry::new(path, expected);
            for globbed in [found(&[]), found(&["x", "y"]), Err(String::from("bad"))] {
                let resolved = resolve_entry(&entry, globbed);
                assert_eq!(resolved.len(), 1);
                assert_eq!(resolved[0].entry(), &entry);
                assert_eq!(resolved[0].failure(), None);
            }
            let expanded = expand_globs(&vec![entry.duplicate()]);
            assert_eq!(expanded.len(), 1);
            assert_eq!(expanded[0].path(), path);
            assert_eq!(expanded[0].expected(), expected);
            assert_eq!(expanded[0].failure(), None);
            assert_eq!(expanded[0].clone().run(), Ok(entry.duplicate()));
        }
    }
}

#[test]
fn pattern_resolves_to_its_matches_in_order() {
    let entry = Entry::new("tests/run-*.rs", Expected::RunMatch);
    let resolved = resolve_entry(
        &entry,
        found(&["tests/run-b.rs", "tests/run-a.rs", "tests/run-c.rs", "tests/run-B.rs", "tests/run-a-b.rs"]),
    );
    assert_eq!(
        paths_of(&resolved),
        vec!["tests/run-B.rs", "tests/run-a-b.rs", "tests/run-a.rs", "tests/run-b.rs", "tests/run-c.rs"]
    );
    for e in &resolved {
        assert_eq!(e.expected(), Expected::RunMatch);
        assert_eq!(e.failure(), None);
    }
}

#[test]
fn resolution_does_not_depend_on_the_listing_order() {
    let entry = Entry::new("*.rs", Expected::CompileFail);
    let first = resolve_entry(&entry, found(&["c.rs", "a.rs", "b.rs", "a.rs"]));
    let second = resolve_entry(&entry, found(&["a.rs", "b.rs", "a.rs", "c.rs"]));
    assert_eq!(first, second);
    assert_eq!(paths_of(&first), vec!["a.rs", "a.rs", "b.rs", "c.rs"]);
}

#[test]
fn pattern_that_matches_nothing_resolves_to_nothing() {
    let entry = Entry::new("tests/none-*.rs", Expected::RunMatch);
    assert_eq!(resolve_entry(&entry, found(&[])), Vec::<ExpandedEntry>::new());
}

#[test]
fn malformed_pattern_stays_with_its_entry() {
    let entry = Entry::new("tests/***", Expected::RunMatch);
    let resolved = resolve_entry(&entry, Err(String::from("wildcards are wrong")));
    assert_eq!(resolved.len(), 1);
    assert_eq!(resolved[0].entry(), &entry);
    assert_eq!(
        resolved[0].failure(),
        Some(&EntryFailed::Error(EntryError::Pattern(String::from("wildcards are wrong"))))
    );
    assert_eq!(
        resolved[0].clone().run(),
        Err(EntryFailed::Error(EntryError::Pattern(String::from("wildcards are wrong"))))
    );
}

#[test]
fn unreadable_match_stays_with_its_entry() {
    let entry = Entry::new("tests/*/x.rs", Expected::CompileFail);
    let globbed = Ok(vec![
        Ok(String::from("tests/b/x.rs")),
        Err(String::from("first failure")),
        Ok(String::from("tests/a/x.rs")),
        Err(String::from("second failure")),
    ]);
    let resolved = resolve_entry(&entry, globbed);
    assert_eq!(resolved.len(), 1);
    assert_eq!(resolved[0].path(), "tests/*/x.rs");
    assert_eq!(
        resolved[0].failure(),
        Some(&EntryFailed::Error(EntryError::Glob(String::from("first failure"))))
    );
}

#[test]
fn the_pattern_matcher_reports_malformed_patterns() {
    let tests = vec![
        Entry::new("plain-before.rs", Expected::CompileFail),
        Entry::new("a/***", Expected::RunMatch),
        Entry::new("plain-after.rs", Expected::RunMatch),
    ];
    let expanded = expand_globs(&tests);
    assert_eq!(paths_of(&expanded), vec!["plain-before.rs", "a/***", "plain-after.rs"]);
    assert_eq!(expanded[0].failure(), None);
    assert_eq!(
        expanded[1].failure(),
        Some(&EntryFailed::Error(EntryError::Pattern(String::from(
            "Pattern syntax error near position 4: wildcards are either regular `*` or recursive `**`"
        ))))
    );
    assert_eq!(expanded[2].failure(), None);
    assert_eq!(expanded[2].expected(), Expected::RunMatch);
}

#[test]
fn patterns_are_matched_against_the_file_system() {
    let tests = vec![
        Entry::new("no-such-directory-anywhere/*.rs", Expected::RunMatch),
        Entry::new("*", Expected::CompileFail),
    ];
    let expanded = expand_globs(&tests);
    let paths = paths_of(&expanded);
    for e in &expanded {
        assert_eq!(e.expected(), Expected::CompileFail);
        assert!(!e.path().contains('*') || e.failure().is_some());
        assert!(!e.path().starts_with("no-such-directory-anywhere"));
    }
    let mut sorted = paths.clone();
    sorted.sort_by(|a, b| std::path::Path::new(a).cmp(std::path::Path::new(b)));
    assert_eq!(paths, sorted);
}

#[test]
fn wildcards_are_stars() {
    assert!(is_pattern("tests/*.rs"));
    assert!(is_pattern("*"));
    assert!(!is_pattern("tests/a?.rs"));
    assert!(!is_pattern(""));
}

#[test]
fn a_directory_comes_before_longer_names_that_start_with_it() {
    let entry = Entry::new("a*/*", Expected::RunMatch);
    let resolved = resolve_entry(&entry, found(&["a-b/c", "a/b"]));
    assert_eq!(paths_of(&resolved), vec!["a/b", "a-b/c"]);
    let entry = Entry::new("tests/ui*/*.rs", Expected::CompileFail);
    let resolved = resolve_entry(
        &entry,
        found(&["tests/ui-runner/main.rs", "tests/ui/b.rs", "tests/ui-cases/a.rs", "tests/ui.d/c.rs", "tests/ui/a.rs"]),
    );
    assert_eq!(
        paths_of(&resolved),
        vec!["tests/ui/a.rs", "tests/ui/b.rs", "tests/ui-cases/a.rs", "tests/ui-runner/main.rs", "tests/ui.d/c.rs"]
    );
}

#[test]
fn resolution_orders_as_paths_do() {
    let listing = [
        "t/ui-runner/main.rs", "t/ui/b.rs", "t/ui-cases/a.rs", "t/ui.d/c.rs", "t/ui/a.rs", "t/ui", "t/ui b/x",
        "t/ui+/x", "t/uj", "t", "t/ui/a/b", "s/z", "t/U",
    ];
    let entry = Entry::new("*", Expected::RunMatch);
    let resolved = paths_of(&resolve_entry(&entry, found(&listing)));
    let mut expected: Vec<std::path::PathBuf> = listing.iter().map(std::path::PathBuf::from).collect();
    expected.sort();
    let expected: Vec<String> = expected.iter().map(|p| p.to_string_lossy().into_owned()).collect();
    assert_eq!(resolved, expected);
}

#[test]
fn paths_are_sorted_part_by_part() {
    let input: Vec<Vec<char>> = ["b", "a/b", "a-b", "", "a", "B", "\u{e9}", "a"]
        .iter()
        .map(|s| s.chars().collect())
        .collect();
    let sorted: Vec<String> = sort_paths(input).into_iter().map(|p| p.into_iter().collect()).collect();
    assert_eq!(sorted, vec!["", "B", "a", "a", "a/b", "a-b", "b", "\u{e9}"]);
}
