use vcgen::analyzer::AnalysisResult;
use vcgen::classify::CommitRecord;
use vcgen::miner::{
    mine_repository, CommitStep, ExtractedFile, MinerError, MinerPhase, RepoHistory,
    RepositoryMiner,
};
use vcgen::policy::VulnerableCommitIdentifier;

fn commit(hash: &str, message: &str) -> CommitRecord {
    CommitRecord {
        hash: String::from(hash),
        message: String::from(message),
        files: vec![String::from("src/a.c")],
    }
}

fn analysis() -> AnalysisResult {
    AnalysisResult {
        findings: vec![String::from("[4] (buffer) strcpy")],
        weakness_ids: vec![String::from("CWE-120")],
    }
}

fn matching_step(hash: &str, file_count: usize) -> CommitStep {
    let files = (0..file_count)
        .map(|i| ExtractedFile {
            repo_file_path: format!("src/f{i}.c"),
            code: String::from("code"),
            flawfinder: Some(analysis()),
        })
        .collect();
    CommitStep {
        commit: commit(hash, "Fix CVE-2022-1111"),
        files,
    }
}

#[test]
fn machine_walks_the_expected_phases() {
    let mut m = RepositoryMiner::new(
        String::from("https://example.test/r.git"),
        VulnerableCommitIdentifier::STRONG,
        2,
    );
    assert_eq!(m.phase(), MinerPhase::Idle);
    m.clone_result(true);
    assert_eq!(m.phase(), MinerPhase::Cloned);

    // An irrelevant commit keeps the machine scanning.
    let boring = commit("c0", "Update readme");
    assert!(!m.offer_commit(&boring));
    assert_eq!(m.phase(), MinerPhase::Scanning);

    // A relevant commit starts extraction.
    let relevant = commit("c1", "Fix CVE-2022-1111");
    assert!(m.offer_commit(&relevant));
    assert_eq!(m.phase(), MinerPhase::Extracting);

    // An extraction without an analysis result emits nothing.
    assert!(!m.file_extracted(String::from("a.c"), String::from("x"), None));
    assert!(m.file_extracted(String::from("b.c"), String::from("y"), Some(analysis())));
    m.extraction_done();
    assert_eq!(m.phase(), MinerPhase::Scanning);

    m.history_exhausted();
    assert_eq!(m.phase(), MinerPhase::Exhausted);

    let records = m.take_records();
    assert_eq!(records.len(), 1);
    assert_eq!(records[0].repo_url().as_str(), "https://example.test/r.git");
    assert_eq!(records[0].commit_hash().as_str(), "c1");
    assert_eq!(records[0].repo_file_path().as_str(), "b.c");
    assert_eq!(records[0].code().as_str(), "y");
    assert_eq!(
        records[0].flawfinder_results().unwrap(),
        &vec![String::from("[4] (buffer) strcpy")]
    );
    assert_eq!(
        records[0].flawfinder_cwes().unwrap(),
        &vec![String::from("CWE-120")]
    );
}

#[test]
fn clone_failure_fails_the_machine() {
    let mut m = RepositoryMiner::new(
        String::from("u"),
        VulnerableCommitIdentifier::STRONG,
        1,
    );
    m.clone_result(false);
    assert_eq!(m.phase(), MinerPhase::Failed);
    assert!(m.records().is_empty());
}

#[test]
fn mine_repository_fails_exactly_on_clone_failure() {
    let bad = RepoHistory {
        url: String::from("u"),
        clone_ok: false,
        commits: vec![matching_step("c0", 1)],
    };
    assert!(matches!(
        mine_repository(&bad, VulnerableCommitIdentifier::STRONG, 5),
        Err(MinerError::CloneFailed)
    ));
}

/// A miner never emits more records than its quota, even when history
/// holds more matching commits than the quota.
#[test]
fn quota_caps_the_records_even_with_more_matches() {
    let history = RepoHistory {
        url: String::from("u"),
        clone_ok: true,
        commits: vec![
            matching_step("c0", 1),
            matching_step("c1", 1),
            matching_step("c2", 1),
        ],
    };
    let records = mine_repository(&history, VulnerableCommitIdentifier::STRONG, 2).unwrap();
    assert_eq!(records.len(), 2);
    assert_eq!(records[0].commit_hash().as_str(), "c0");
    assert_eq!(records[1].commit_hash().as_str(), "c1");
}

/// The quota also cuts within one commit's files.
#[test]
fn quota_caps_the_records_within_one_commit() {
    let history = RepoHistory {
        url: String::from("u"),
        clone_ok: true,
        commits: vec![matching_step("c0", 4)],
    };
    let records = mine_repository(&history, VulnerableCommitIdentifier::STRONG, 3).unwrap();
    assert_eq!(records.len(), 3);
    assert_eq!(records[0].repo_file_path().as_str(), "src/f0.c");
    assert_eq!(records[2].repo_file_path().as_str(), "src/f2.c");
}

#[test]
fn commits_failing_the_policy_emit_nothing() {
    let mut step = matching_step("c0", 1);
    step.commit.message = String::from("Plain refactoring");
    let history = RepoHistory {
        url: String::from("u"),
        clone_ok: true,
        commits: vec![step],
    };
    let records = mine_repository(&history, VulnerableCommitIdentifier::LOW, 5).unwrap();
    assert!(records.is_empty());
}

#[test]
fn failed_extractions_are_skipped_not_fatal() {
    let step = CommitStep {
        commit: commit("c0", "Fix CVE-2022-2222"),
        files: vec![
            ExtractedFile {
                repo_file_path: String::from("bad.c"),
                code: String::from(""),
                flawfinder: None,
            },
            ExtractedFile {
                repo_file_path: String::from("good.c"),
                code: String::from("code"),
                flawfinder: Some(analysis()),
            },
        ],
    };
    let history = RepoHistory {
        url: String::from("u"),
        clone_ok: true,
        commits: vec![step],
    };
    let records = mine_repository(&history, VulnerableCommitIdentifier::STRONG, 5).unwrap();
    assert_eq!(records.len(), 1);
    assert_eq!(records[0].repo_file_path().as_str(), "good.c");
}
