use lintrunner_core::lint_config::{get_linters_from_config, LintConfig};
use lintrunner_core::linter::Linter;
use lintrunner_core::pattern::{matches_any, patterns_from_strs, PathPattern};

fn compiled(v: &[&str]) -> Vec<PathPattern> {
    let strs: Vec<String> = v.iter().map(|s| s.to_string()).collect();
    match patterns_from_strs(&strs) {
        Ok(ps) => ps,
        Err(_) => panic!("pattern rejected"),
    }
}

fn linter(wanted: &[&str], unwanted: &[&str], bypass: bool) -> Linter {
    let cfg = LintConfig {
        name: "L".to_string(),
        include_patterns: wanted.iter().map(|s| s.to_string()).collect(),
        exclude_patterns: Some(unwanted.iter().map(|s| s.to_string()).collect()),
        args: vec![],
        init_args: None,
        bypass_matched_file_filter: bypass,
    };
    match get_linters_from_config(&"/c.toml".to_string(), vec![cfg], None, None) {
        Ok(mut ls) => ls.remove(0),
        Err(_) => panic!("configuration rejected"),
    }
}

#[test]
fn star_matches_across_directories() {
    assert!(matches_any(&compiled(&["*.py"]), "a/b/c.py"));
}

#[test]
fn star_does_not_match_other_extension() {
    assert!(!matches_any(&compiled(&["*.py"]), "a/b/c.txt"));
}

#[test]
fn no_patterns_match_nothing() {
    assert!(!matches_any(&compiled(&[]), "a.py"));
}

#[test]
fn question_mark_is_one_character() {
    let ps = compiled(&["c?t"]);
    assert!(matches_any(&ps, "cat"));
    assert!(!matches_any(&ps, "ct"));
}

#[test]
fn exclude_beats_include() {
    let l = linter(&["**/*.py"], &["gen/**"], false);
    assert!(l.should_lint("src/a.py"));
    assert!(!l.should_lint("gen/a.py"));
    assert!(!l.should_lint("src/a.rs"));
}

#[test]
fn bypass_accepts_unmatched_paths() {
    let l = linter(&["*.py"], &["*.rs"], true);
    assert!(l.should_lint("main.rs"));
    assert!(l.should_lint("README"));
}

#[test]
fn literal_pattern_matches_itself() {
    let p = match PathPattern::compile(&"src/lib.rs".to_string()) {
        Ok(p) => p,
        Err(_) => panic!("literal rejected"),
    };
    assert!(p.matches("src/lib.rs"));
    assert!(!p.matches("src/lib.rsx"));
}

#[test]
fn malformed_patterns_are_rejected() {
    assert!(PathPattern::compile(&"a/***".to_string()).is_err());
    assert!(PathPattern::compile(&"a**/b".to_string()).is_err());
    assert!(PathPattern::compile(&"[ab".to_string()).is_err());
    assert!(PathPattern::compile(&"a/**/b".to_string()).is_ok());
}

#[test]
fn batch_fails_on_first_bad_pattern() {
    let strs = vec!["*.rs".to_string(), "[x".to_string(), "***".to_string()];
    match patterns_from_strs(&strs) {
        Err(e) => assert_eq!(e.raw_pattern, "[x"),
        Ok(_) => panic!("expected an error"),
    }
}
