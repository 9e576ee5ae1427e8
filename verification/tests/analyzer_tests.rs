use vcgen::analyzer::{
    install_location, parse_analyzer_output, scan_outcome, AnalyzerError, AnalyzerTool,
};
use vcgen::check_dependencies;
use vcgen::config::positive_value;
use vcgen::search::{filter_repositories, RepositoryLocation};

const SAMPLE_OUTPUT: &str = "Flawfinder version 2.0, (C) 2001-2019 David A. Wheeler.\n\
Examining src/a.c\n\
src/a.c:10:  [4] (buffer) strcpy: Does not check for buffer overflows (CWE-120).\n\
src/a.c:22:  [2] (misc) open: Check when opening files (CWE-362).\n\
Hits = 2";

#[test]
fn parser_keeps_exactly_the_marked_lines() {
    let result = parse_analyzer_output(SAMPLE_OUTPUT);
    assert_eq!(result.findings.len(), 2);
    assert!(result.findings[0].contains("strcpy"));
    assert!(result.findings[1].contains("open"));
}

#[test]
fn parser_collects_weakness_identifiers_in_order() {
    let result = parse_analyzer_output(SAMPLE_OUTPUT);
    assert_eq!(
        result.weakness_ids,
        vec![String::from("CWE-120"), String::from("CWE-362")]
    );
}

#[test]
fn parser_yields_nothing_for_clean_output() {
    let result = parse_analyzer_output("Examining src/a.c\nHits = 0");
    assert!(result.findings.is_empty());
    assert!(result.weakness_ids.is_empty());
}

#[test]
fn weakness_identifier_needs_at_least_one_digit() {
    let result = parse_analyzer_output("mentions CWE- without a number, then CWE-79.");
    assert_eq!(result.weakness_ids, vec![String::from("CWE-79")]);
}

#[test]
fn scan_outcome_unavailable_when_not_located() {
    let r = scan_outcome(false, true, "anything");
    assert!(matches!(r, Err(AnalyzerError::AnalyzerUnavailable)));
}

#[test]
fn scan_outcome_failed_on_bad_exit() {
    let r = scan_outcome(true, false, "anything");
    assert!(matches!(r, Err(AnalyzerError::AnalyzerExecutionFailed)));
}

#[test]
fn scan_outcome_parses_on_success() {
    let r = scan_outcome(true, true, SAMPLE_OUTPUT).unwrap();
    assert_eq!(r.findings.len(), 2);
    assert_eq!(r.weakness_ids.len(), 2);
}

#[test]
fn environment_override_wins_the_install_location() {
    let r = install_location(
        AnalyzerTool::Flawfinder,
        Some(String::from("/opt/ff/flawfinder")),
        true,
    );
    assert_eq!(r.as_deref(), Some("/opt/ff/flawfinder"));
}

#[test]
fn default_path_is_taken_when_present() {
    let r = install_location(AnalyzerTool::Flawfinder, None, true);
    assert_eq!(r.as_deref(), Some("/usr/bin/flawfinder"));
    assert_eq!(AnalyzerTool::Flawfinder.env_var(), "FLAWFINDER_PATH");
}

#[test]
fn no_location_when_nothing_is_found() {
    let r = install_location(AnalyzerTool::Flawfinder, None, false);
    assert_eq!(r, None);
}

#[test]
fn positive_value_accepts_positive_integers() {
    assert_eq!(positive_value("5"), Ok(5));
    assert_eq!(positive_value("+7"), Ok(7));
    assert_eq!(positive_value("2147483647"), Ok(2147483647));
}

#[test]
fn positive_value_rejects_non_integers() {
    assert_eq!(
        positive_value("abc"),
        Err(String::from("abc must be an integer."))
    );
    assert_eq!(
        positive_value(""),
        Err(String::from(" must be an integer."))
    );
    assert_eq!(
        positive_value("99999999999"),
        Err(String::from("99999999999 must be an integer."))
    );
}

#[test]
fn positive_value_rejects_non_positive_integers() {
    assert_eq!(
        positive_value("0"),
        Err(String::from("0 must be a positive integer."))
    );
    assert_eq!(
        positive_value("-3"),
        Err(String::from("-3 must be a positive integer."))
    );
}

#[test]
fn check_dependencies_requires_a_token() {
    let r = check_dependencies(false, false, true);
    assert!(r.is_err());
    assert!(r.unwrap_err().contains("GITHUB_API_TOKEN"));
}

#[test]
fn check_dependencies_requires_flawfinder_when_enabled() {
    let r = check_dependencies(false, true, false);
    assert!(r.is_err());
    assert!(r.unwrap_err().contains("Flawfinder"));
}

#[test]
fn check_dependencies_requires_at_least_one_analyzer() {
    let r = check_dependencies(true, true, true);
    assert!(r.is_err());
    assert!(r.unwrap_err().contains("at least"));
}

#[test]
fn check_dependencies_passes_with_token_and_analyzer() {
    assert_eq!(check_dependencies(false, true, true), Ok(()));
}

fn location(url: Option<&str>, size: Option<u32>) -> RepositoryLocation {
    RepositoryLocation {
        clone_url: url.map(String::from),
        size,
    }
}

#[test]
fn repositories_are_filtered_by_size_and_url() {
    let repos = vec![
        location(Some("a"), Some(100)),
        location(Some("b"), Some(5000)),
        location(None, Some(1)),
        location(Some("c"), None),
    ];
    // Sizes strictly under the limit survive; a missing size counts as
    // zero; a missing clone URL drops the location.
    let urls = filter_repositories(&repos, Some(1000));
    assert_eq!(urls, vec![String::from("a"), String::from("c")]);
}

#[test]
fn no_size_limit_keeps_everything_with_a_url() {
    let repos = vec![
        location(Some("a"), Some(u32::MAX - 1)),
        location(Some("b"), None),
        location(None, None),
    ];
    let urls = filter_repositories(&repos, None);
    assert_eq!(urls, vec![String::from("a"), String::from("b")]);
}
