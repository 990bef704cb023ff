use lintrunner_core::lint_config::{get_linters_from_config, ConfigError, LintConfig, LintRunnerConfig};

fn record(name: &str, init_args: Option<Vec<&str>>) -> LintConfig {
    LintConfig {
        name: name.to_string(),
        include_patterns: vec!["**/*.py".to_string()],
        exclude_patterns: None,
        args: vec!["run".to_string(), "@{{PATHSFILE}}".to_string()],
        init_args: init_args.map(|v| v.into_iter().map(|s| s.to_string()).collect()),
        bypass_matched_file_filter: false,
    }
}

fn three() -> Vec<LintConfig> {
    vec![record("FLAKE8", None), record("MYPY", None), record("BLACK", None)]
}

fn names(v: &[&str]) -> Option<Vec<String>> {
    Some(v.iter().map(|s| s.to_string()).collect())
}

fn selected(skip: Option<Vec<String>>, take: Option<Vec<String>>) -> Vec<String> {
    match get_linters_from_config(&"/repo/.lintrunner.toml".to_string(), three(), skip, take) {
        Ok(ls) => ls.into_iter().map(|l| l.name).collect(),
        Err(_) => panic!("configuration rejected"),
    }
}

#[test]
fn init_args_without_placeholder_are_rejected() {
    let cfg = vec![record("A", None), record("B", Some(vec!["pip", "install", "x"]))];
    match LintRunnerConfig::new(cfg) {
        Err(ConfigError::MissingDryRunPlaceholder { linter_name }) => assert_eq!(linter_name, "B"),
        _ => panic!("expected a missing placeholder error"),
    }
}

#[test]
fn placeholder_in_one_token_is_enough() {
    let cfg = vec![record("B", Some(vec!["python", "init.py", "--dry-run={{DRYRUN}}"]))];
    assert!(LintRunnerConfig::new(cfg).is_ok());
}

#[test]
fn empty_init_args_are_rejected() {
    let cfg = vec![record("B", Some(vec![]))];
    assert!(matches!(
        LintRunnerConfig::new(cfg),
        Err(ConfigError::MissingDryRunPlaceholder { .. })
    ));
}

#[test]
fn loading_reports_missing_placeholder() {
    let cfg = vec![record("A", Some(vec!["{{DRYRUN"]))];
    let r = get_linters_from_config(&"/c.toml".to_string(), cfg, None, None);
    assert!(matches!(r, Err(ConfigError::MissingDryRunPlaceholder { .. })));
}

#[test]
fn no_selection_keeps_all_in_order() {
    assert_eq!(selected(None, None), vec!["FLAKE8", "MYPY", "BLACK"]);
}

#[test]
fn skip_one_removes_only_that_name() {
    assert_eq!(selected(names(&["MYPY"]), None), vec!["FLAKE8", "BLACK"]);
}

#[test]
fn take_one_keeps_only_that_name() {
    assert_eq!(selected(None, names(&["MYPY"])), vec!["MYPY"]);
}

#[test]
fn take_keeps_configuration_order() {
    assert_eq!(selected(None, names(&["BLACK", "FLAKE8"])), vec!["FLAKE8", "BLACK"]);
}

#[test]
fn take_of_unknown_name_is_empty() {
    assert!(selected(None, names(&["NOPE"])).is_empty());
}

#[test]
fn unknown_skip_names_are_ignored() {
    assert_eq!(selected(names(&["NOPE", "BLACK"]), None), vec!["FLAKE8", "MYPY"]);
}

#[test]
fn take_then_skip_same_name_is_empty() {
    assert!(selected(names(&["MYPY"]), names(&["MYPY"])).is_empty());
}

#[test]
fn linter_fields_come_from_record() {
    let mut r = record("X", Some(vec!["{{DRYRUN}}"]));
    r.exclude_patterns = Some(vec!["vendor/**".to_string()]);
    r.bypass_matched_file_filter = true;
    let ls = match get_linters_from_config(&"/c.toml".to_string(), vec![r], None, None) {
        Ok(ls) => ls,
        Err(_) => panic!("configuration rejected"),
    };
    assert_eq!(ls.len(), 1);
    assert_eq!(ls[0].name, "X");
    assert_eq!(ls[0].config_path, "/c.toml");
    assert_eq!(ls[0].commands, vec!["run", "@{{PATHSFILE}}"]);
    assert_eq!(ls[0].init_commands, Some(vec!["{{DRYRUN}}".to_string()]));
    assert_eq!(ls[0].include_patterns.len(), 1);
    assert_eq!(ls[0].exclude_patterns.len(), 1);
    assert!(ls[0].bypass_matched_file_filter);
}

#[test]
fn bad_pattern_fails_whole_load() {
    let mut r = record("X", None);
    r.include_patterns = vec!["ok/*.rs".to_string(), "a/***".to_string(), "[".to_string()];
    let r = get_linters_from_config(&"/c.toml".to_string(), vec![record("A", None), r], names(&["X"]), None);
    match r {
        Err(ConfigError::PatternError(e)) => {
            assert_eq!(e.raw_pattern, "a/***");
            assert!(!e.cause.is_empty());
        }
        _ => panic!("expected a pattern error"),
    }
}

#[test]
fn bad_exclude_pattern_fails_whole_load() {
    let mut r = record("X", None);
    r.exclude_patterns = Some(vec!["[abc".to_string()]);
    let r = get_linters_from_config(&"/c.toml".to_string(), vec![r], None, None);
    match r {
        Err(ConfigError::PatternError(e)) => assert_eq!(e.raw_pattern, "[abc"),
        _ => panic!("expected a pattern error"),
    }
}
