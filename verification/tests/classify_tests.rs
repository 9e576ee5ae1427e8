use vcgen::classify::{classify, CommitRecord};
use vcgen::commit_policy;
use vcgen::policy::VulnerableCommitIdentifier;

fn commit(message: &str) -> CommitRecord {
    CommitRecord {
        hash: String::from("0123abcd"),
        message: String::from(message),
        files: vec![String::from("src/parse.c")],
    }
}

#[test]
fn cve_reference_is_relevant_at_every_tier() {
    let c = commit("Fix CVE-2021-44228 in the lookup code");
    assert!(classify(&c, VulnerableCommitIdentifier::STRONG));
    assert!(classify(&c, VulnerableCommitIdentifier::MEDIUM));
    assert!(classify(&c, VulnerableCommitIdentifier::LOW));
}

#[test]
fn keyword_match_is_case_insensitive() {
    let c = commit("fix cve-2019-1010 and cleanup");
    assert!(classify(&c, VulnerableCommitIdentifier::STRONG));
    let c = commit("Backport Security Fix from upstream");
    assert!(classify(&c, VulnerableCommitIdentifier::MEDIUM));
}

#[test]
fn empty_message_is_never_relevant() {
    let c = commit("");
    assert!(!classify(&c, VulnerableCommitIdentifier::STRONG));
    assert!(!classify(&c, VulnerableCommitIdentifier::MEDIUM));
    assert!(!classify(&c, VulnerableCommitIdentifier::LOW));
}

#[test]
fn unrelated_message_is_never_relevant() {
    let c = commit("Improve documentation of the build steps");
    assert!(!classify(&c, VulnerableCommitIdentifier::STRONG));
    assert!(!classify(&c, VulnerableCommitIdentifier::MEDIUM));
    assert!(!classify(&c, VulnerableCommitIdentifier::LOW));
}

#[test]
fn vulnerability_wording_needs_the_medium_tier() {
    let c = commit("Patch a vulnerability in the parser");
    assert!(!classify(&c, VulnerableCommitIdentifier::STRONG));
    assert!(classify(&c, VulnerableCommitIdentifier::MEDIUM));
    assert!(classify(&c, VulnerableCommitIdentifier::LOW));
}

#[test]
fn generic_security_wording_needs_the_low_tier() {
    let c = commit("Harden against exploit attempts");
    assert!(!classify(&c, VulnerableCommitIdentifier::STRONG));
    assert!(!classify(&c, VulnerableCommitIdentifier::MEDIUM));
    assert!(classify(&c, VulnerableCommitIdentifier::LOW));
}

#[test]
fn buffer_overflow_wording_needs_the_medium_tier() {
    let c = commit("Avoid buffer overflow when reading headers");
    assert!(!classify(&c, VulnerableCommitIdentifier::STRONG));
    assert!(classify(&c, VulnerableCommitIdentifier::MEDIUM));
    assert!(classify(&c, VulnerableCommitIdentifier::LOW));
}

#[test]
fn commit_policy_parses_tier_names_in_any_case() {
    assert_eq!(commit_policy("strong"), VulnerableCommitIdentifier::STRONG);
    assert_eq!(commit_policy("STRONG"), VulnerableCommitIdentifier::STRONG);
    assert_eq!(commit_policy("Medium"), VulnerableCommitIdentifier::MEDIUM);
    assert_eq!(commit_policy("low"), VulnerableCommitIdentifier::LOW);
}

#[test]
fn policy_ranks_order_by_decreasing_strictness() {
    assert_eq!(VulnerableCommitIdentifier::STRONG.rank(), 0);
    assert_eq!(VulnerableCommitIdentifier::MEDIUM.rank(), 1);
    assert_eq!(VulnerableCommitIdentifier::LOW.rank(), 2);
    assert_eq!(
        VulnerableCommitIdentifier::default(),
        VulnerableCommitIdentifier::STRONG
    );
}

#[test]
fn policy_names_are_lower_case() {
    assert_eq!(VulnerableCommitIdentifier::STRONG.name(), "strong");
    assert_eq!(VulnerableCommitIdentifier::MEDIUM.name(), "medium");
    assert_eq!(VulnerableCommitIdentifier::LOW.name(), "low");
}
