
#[test]
fn glob_star_dot_log_matches_app_log() {
    assert!(ftime::glob::matches("*.log", "app.log"));
}

#[test]
fn glob_question_mark_needs_exactly_one_char() {
    assert!(ftime::glob::matches("a?c", "abc"));
    assert!(!ftime::glob::matches("a?c", "ac"));
    assert!(!ftime::glob::matches("a?c", "abbc"));
}

#[test]
fn glob_star_matches_empty_text() {
    assert!(ftime::glob::matches("*", ""));
    assert!(ftime::glob::matches("*", "anything"));
}

#[test]
fn glob_literals_match_themselves_only() {
    assert!(ftime::glob::matches(".DS_Store", ".DS_Store"));
    assert!(!ftime::glob::matches(".DS_Store", "DS_Store"));
    assert!(!ftime::glob::matches("abc", "abd"));
    assert!(ftime::glob::matches("", ""));
    assert!(!ftime::glob::matches("", "x"));
}

#[test]
fn glob_star_in_the_middle_tries_every_split() {
    assert!(ftime::glob::matches("a*c", "ac"));
    assert!(ftime::glob::matches("a*c", "abbbc"));
    assert!(!ftime::glob::matches("a*c", "abbbd"));
    assert!(ftime::glob::matches("*a*", "banana"));
}
