use vcgen::miner::{CommitStep, ExtractedFile, RepoHistory};
use vcgen::analyzer::AnalysisResult;
use vcgen::classify::CommitRecord;
use vcgen::policy::VulnerableCommitIdentifier;
use vcgen::scheduler::{aggregate_results, run_worker, VCGenerator, WorkDivisionStrategy};

fn urls(names: &[&str]) -> Vec<String> {
    names.iter().map(|n| String::from(*n)).collect()
}

fn generator(entries: i32, workers: i32, strategy: WorkDivisionStrategy) -> VCGenerator {
    let mut g = VCGenerator::new(entries, "dataset.jsonl");
    g.set_worker_threads(workers).set_strategy(strategy);
    g
}

#[test]
fn successive_slices_interleave() {
    let g = generator(10, 2, WorkDivisionStrategy::SUCCESSIVE);
    let list = urls(&["a", "b", "c", "d", "e"]);
    assert_eq!(g.worker_slice(0, list.clone()), urls(&["a", "c", "e"]));
    assert_eq!(g.worker_slice(1, list), urls(&["b", "d"]));
}

#[test]
fn successive_slices_are_disjoint_and_recover_the_list() {
    let g = generator(10, 3, WorkDivisionStrategy::SUCCESSIVE);
    let list = urls(&["a", "b", "c", "d", "e", "f", "g"]);
    let s0 = g.worker_slice(0, list.clone());
    let s1 = g.worker_slice(1, list.clone());
    let s2 = g.worker_slice(2, list.clone());
    assert_eq!(s0.len() + s1.len() + s2.len(), list.len());
    // Interleaving the slices rebuilds the original list.
    let slices = [s0, s1, s2];
    for (p, expected) in list.iter().enumerate() {
        assert_eq!(&slices[p % 3][p / 3], expected);
    }
}

#[test]
fn percentile_slices_are_contiguous_blocks() {
    let g = generator(10, 2, WorkDivisionStrategy::PERCENTILE);
    let list = urls(&["a", "b", "c", "d", "e"]);
    assert_eq!(g.worker_slice(0, list.clone()), urls(&["a", "b"]));
    assert_eq!(g.worker_slice(1, list), urls(&["c", "d", "e"]));
}

#[test]
fn random_strategy_hands_blocks_out_in_reverse() {
    let g = generator(10, 2, WorkDivisionStrategy::RANDOM);
    let list = urls(&["a", "b", "c", "d", "e"]);
    assert_eq!(g.worker_slice(0, list.clone()), urls(&["c", "d", "e"]));
    assert_eq!(g.worker_slice(1, list), urls(&["a", "b"]));
}

#[test]
fn quotas_sum_to_the_requested_entries() {
    let g = generator(10, 3, WorkDivisionStrategy::SUCCESSIVE);
    assert_eq!(g.worker_quota(0), 3);
    assert_eq!(g.worker_quota(1), 3);
    assert_eq!(g.worker_quota(2), 4);
    let g = generator(9, 3, WorkDivisionStrategy::SUCCESSIVE);
    assert_eq!(g.worker_quota(0), 3);
    assert_eq!(g.worker_quota(1), 3);
    assert_eq!(g.worker_quota(2), 3);
}

#[test]
fn builder_defaults_match_the_documented_ones() {
    let g = VCGenerator::new(25, "out.jsonl");
    assert_eq!(g.entries, 25);
    assert_eq!(g.worker_threads, 4);
    assert_eq!(g.strategy, WorkDivisionStrategy::SUCCESSIVE);
    assert_eq!(g.policy, VulnerableCommitIdentifier::STRONG);
    assert_eq!(g.max_repo_size, None);
    assert!(!g.disable_flawfinder);
    assert!(g.quiet);
}

#[test]
fn builder_setters_chain() {
    let mut g = VCGenerator::new(5, "out.jsonl");
    g.set_entries(7)
        .set_worker_threads(2)
        .set_max_repo_size(Some(4096))
        .set_disable_flawfinder(true)
        .set_quiet(false)
        .set_policy(VulnerableCommitIdentifier::LOW)
        .set_strategy(WorkDivisionStrategy::PERCENTILE)
        .set_dataset_path("other.jsonl");
    assert_eq!(g.entries, 7);
    assert_eq!(g.worker_threads, 2);
    assert_eq!(g.max_repo_size, Some(4096));
    assert!(g.disable_flawfinder);
    assert!(!g.quiet);
    assert_eq!(g.policy, VulnerableCommitIdentifier::LOW);
    assert_eq!(g.strategy, WorkDivisionStrategy::PERCENTILE);
    assert_eq!(g.dataset_path, "other.jsonl");
}

fn relevant_commit_with_one_file(hash: &str) -> CommitStep {
    CommitStep {
        commit: CommitRecord {
            hash: String::from(hash),
            message: String::from("Fix CVE-2020-0001"),
            files: vec![String::from("src/a.c")],
        },
        files: vec![ExtractedFile {
            repo_file_path: String::from("src/a.c"),
            code: String::from("int main() { return 0; }"),
            flawfinder: Some(AnalysisResult {
                findings: vec![String::from("[4] (buffer) strcpy")],
                weakness_ids: vec![String::from("CWE-120")],
            }),
        }],
    }
}

fn history(url: &str, clone_ok: bool, commits: Vec<CommitStep>) -> RepoHistory {
    RepoHistory {
        url: String::from(url),
        clone_ok,
        commits,
    }
}

/// The end-to-end scenario: 10 entries over 2 workers with the PERCENTILE
/// strategy and a 4-repository list.
#[test]
fn percentile_run_with_two_workers_and_four_repositories() {
    let g = generator(10, 2, WorkDivisionStrategy::PERCENTILE);
    let list = urls(&["r0", "r1", "r2", "r3"]);
    let slice0 = g.worker_slice(0, list.clone());
    let slice1 = g.worker_slice(1, list);
    assert_eq!(slice0, urls(&["r0", "r1"]));
    assert_eq!(slice1, urls(&["r2", "r3"]));
    assert_eq!(g.worker_quota(0), 5);
    assert_eq!(g.worker_quota(1), 5);

    let policy = VulnerableCommitIdentifier::STRONG;
    let worker0 = run_worker(
        &vec![
            history("r0", true, vec![relevant_commit_with_one_file("c0")]),
            history("r1", true, vec![relevant_commit_with_one_file("c1")]),
        ],
        policy,
        g.worker_quota(0) as usize,
    );
    let worker1 = run_worker(
        &vec![
            history("r2", true, vec![relevant_commit_with_one_file("c2")]),
            history("r3", true, vec![relevant_commit_with_one_file("c3")]),
        ],
        policy,
        g.worker_quota(1) as usize,
    );
    let outcome = aggregate_results(vec![worker0, worker1]);
    assert!(outcome.records.len() <= 10);
    assert_eq!(outcome.records.len(), 4);
    // Concatenation follows worker-index order, and collection order
    // within each worker.
    let hashes: Vec<&str> = outcome
        .records
        .iter()
        .map(|r| r.commit_hash().as_str())
        .collect();
    assert_eq!(hashes, vec!["c0", "c1", "c2", "c3"]);
    // Both workers fell short of their quota of 5.
    assert_eq!(outcome.workers_under_quota, 2);
}

/// A repository whose clone fails is skipped without aborting the worker.
#[test]
fn clone_failure_skips_the_repository_and_the_worker_continues() {
    let policy = VulnerableCommitIdentifier::STRONG;
    let w = run_worker(
        &vec![
            history("broken", false, vec![]),
            history("good", true, vec![relevant_commit_with_one_file("c9")]),
        ],
        policy,
        3,
    );
    assert_eq!(w.records.len(), 1);
    assert_eq!(w.records[0].repo_url().as_str(), "good");
    assert_eq!(w.records[0].commit_hash().as_str(), "c9");
    assert!(!w.quota_met);
}

#[test]
fn worker_stops_at_its_quota_across_repositories() {
    let policy = VulnerableCommitIdentifier::STRONG;
    let w = run_worker(
        &vec![
            history("a", true, vec![relevant_commit_with_one_file("c0")]),
            history("b", true, vec![relevant_commit_with_one_file("c1")]),
            history("c", true, vec![relevant_commit_with_one_file("c2")]),
        ],
        policy,
        2,
    );
    assert_eq!(w.records.len(), 2);
    assert!(w.quota_met);
}
