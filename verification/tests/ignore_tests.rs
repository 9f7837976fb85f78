use ftime::ignore::{is_ignored, parse_ignore_lines, rel_path, trim};

#[test]
fn default_noise_names_are_always_ignored() {
    let none: Vec<String> = Vec::new();
    assert!(is_ignored(".DS_Store", "/r/.DS_Store", "/r", &none, &none));
    assert!(is_ignored("Thumbs.db", "/r/Thumbs.db", "/r", &none, &none));
    assert!(!is_ignored("visible", "/r/visible", "/r", &none, &none));
}

#[test]
fn global_pattern_hides_matching_name() {
    let globals = vec!["*.tmp".to_string()];
    let none: Vec<String> = Vec::new();
    assert!(is_ignored("skip.tmp", "/r/skip.tmp", "/r", &globals, &none));
    assert!(!is_ignored("keep.log", "/r/keep.log", "/r", &globals, &none));
}

#[test]
fn local_patterns_are_evaluated_too() {
    let none: Vec<String> = Vec::new();
    let locals = vec!["*.bak".to_string()];
    assert!(is_ignored("old.bak", "/r/old.bak", "/r", &none, &locals));
    assert!(!is_ignored("old.txt", "/r/old.txt", "/r", &none, &locals));
}

#[test]
fn separator_pattern_matches_against_relative_path() {
    let globals = vec!["build/output".to_string()];
    let none: Vec<String> = Vec::new();
    assert!(is_ignored("output", "/r/build/output", "/r", &globals, &none));
    // An entry whose path does not start with the root cannot match a
    // separator pattern.
    assert!(!is_ignored("output", "/elsewhere/build/output", "/r", &globals, &none));
    // A name-only pattern still matches regardless of the path.
    let name_only = vec!["output".to_string()];
    assert!(is_ignored("output", "/elsewhere/build/output", "/r", &name_only, &none));
}

#[test]
fn rel_path_strips_root_and_one_separator() {
    assert_eq!(rel_path("/r/a/b", "/r"), Some("a/b"));
    assert_eq!(rel_path("/r/a/b", "/r/"), Some("a/b"));
    assert_eq!(rel_path("/r", "/r"), Some(""));
    assert_eq!(rel_path("/q/a", "/r"), None);
}

#[test]
fn parse_ignore_lines_trims_and_drops_comments() {
    let parsed = parse_ignore_lines("*.tmp\n# comment\n\n  spaced  \n\t*.log\r\n");
    assert_eq!(parsed, vec!["*.tmp".to_string(), "spaced".to_string(), "*.log".to_string()]);
}

#[test]
fn parse_ignore_lines_of_empty_text_is_empty() {
    let parsed = parse_ignore_lines("");
    assert!(parsed.is_empty());
    let only_comments = parse_ignore_lines("# a\n   \n#b");
    assert!(only_comments.is_empty());
}

#[test]
fn trim_removes_spaces_tabs_and_carriage_returns() {
    assert_eq!(trim("  a b  "), "a b");
    assert_eq!(trim("\t x\r"), "x");
    assert_eq!(trim(""), "");
    assert_eq!(trim("   "), "");
}
