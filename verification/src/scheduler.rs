//! Division of repository work across a fixed pool of workers.

use vstd::prelude::*;

use crate::miner::{lemma_mine_commits_len, mine_repository, spec_mine_commits, RepoHistory};
use crate::policy::VulnerableCommitIdentifier;
use crate::record::{AnalyzedFile, AnalyzedFileView};

verus! {

/// Builder that drives the generation of a dataset of vulnerable code.
pub struct VCGenerator {
    pub entries: i32,
    pub dataset_path: String,
    pub worker_threads: i32,
    pub strategy: WorkDivisionStrategy,
    pub policy: VulnerableCommitIdentifier,
    pub max_repo_size: Option<u32>,
    pub disable_flawfinder: bool,
    pub quiet: bool,
}

impl VCGenerator {
    /// Creates a new [`VCGenerator`] with default generator arguments,
    /// specifying the desired number of entries and where the dataset
    /// should be written to.
    pub fn new(entries: i32, dataset_path: &str) -> (r: Self)
        ensures
            r.entries == entries,
            r.dataset_path@ == dataset_path@,
            r.worker_threads == 4,
            r.strategy == WorkDivisionStrategy::SUCCESSIVE,
            r.policy == VulnerableCommitIdentifier::STRONG,
            r.max_repo_size is None,
            r.disable_flawfinder == false,
            r.quiet == true,
    {
        VCGenerator {
            entries,
            dataset_path: String::from_str(dataset_path),
            worker_threads: 4,
            strategy: WorkDivisionStrategy::default(),
            policy: VulnerableCommitIdentifier::default(),
            max_repo_size: None,
            disable_flawfinder: false,
            quiet: true,
        }
    }

    /// Sets the number of entries to generate.
    pub fn set_entries(&mut self, entries: i32) -> (r: &mut Self)
        ensures
            *r == (VCGenerator { entries, ..*old(self) }),
            *final(self) == *final(r),
    {
        self.entries = entries;
        self
    }

    /// Sets the path to where the dataset should be written to.
    pub fn set_dataset_path(&mut self, dataset_path: &str) -> (r: &mut Self)
        ensures
            r.dataset_path@ == dataset_path@,
            *r == (VCGenerator { dataset_path: r.dataset_path, ..*old(self) }),
            *final(self) == *final(r),
    {
        self.dataset_path = String::from_str(dataset_path);
        self
    }

    /// Sets how many worker threads should contribute to cloning
    /// repositories and scanning for vulnerable code.
    pub fn set_worker_threads(&mut self, worker_threads: i32) -> (r: &mut Self)
        ensures
            *r == (VCGenerator { worker_threads, ..*old(self) }),
            *final(self) == *final(r),
    {
        self.worker_threads = worker_threads;
        self
    }

    /// Sets the optional size limit in kilobytes of how big repositories
    /// should be cloned and scanned.
    pub fn set_max_repo_size(&mut self, max_repo_size: Option<u32>) -> (r: &mut Self)
        ensures
            *r == (VCGenerator { max_repo_size, ..*old(self) }),
            *final(self) == *final(r),
    {
        self.max_repo_size = max_repo_size;
        self
    }

    /// Sets if Flawfinder should be enabled/disabled when collecting
    /// entries.
    pub fn set_disable_flawfinder(&mut self, disable_flawfinder: bool) -> (r: &mut Self)
        ensures
            *r == (VCGenerator { disable_flawfinder, ..*old(self) }),
            *final(self) == *final(r),
    {
        self.disable_flawfinder = disable_flawfinder;
        self
    }

    /// Sets if verbose progress output should be suppressed while the
    /// dataset is being generated.
    pub fn set_quiet(&mut self, quiet: bool) -> (r: &mut Self)
        ensures
            *r == (VCGenerator { quiet, ..*old(self) }),
            *final(self) == *final(r),
    {
        self.quiet = quiet;
        self
    }

    /// Sets the [`WorkDivisionStrategy`] on how each worker thread will
    /// divide the workload of repos to clone and search for
    /// vulnerabilities.
    pub fn set_strategy(&mut self, strategy: WorkDivisionStrategy) -> (r: &mut Self)
        ensures
            *r == (VCGenerator { strategy, ..*old(self) }),
            *final(self) == *final(r),
    {
        self.strategy = strategy;
        self
    }

    /// Sets the policy for worker threads on how to identify vulnerable
    /// commits.
    pub fn set_policy(&mut self, policy: VulnerableCommitIdentifier) -> (r: &mut Self)
        ensures
            *r == (VCGenerator { policy, ..*old(self) }),
            *final(self) == *final(r),
    {
        self.policy = policy;
        self
    }

    /// Gets the amount of entries the worker thread must collect to
    /// generate the dataset. The last worker absorbs any remainder, so the
    /// quotas of all workers sum to the requested entry count exactly.
    pub fn worker_quota(&self, worker: i32) -> (r: i32)
        requires
            1 <= self.worker_threads,
            0 <= worker < self.worker_threads,
            0 <= self.entries,
        ensures
            r == spec_worker_quota(self.entries as int, self.worker_threads as int, worker as int),
            0 <= r <= self.entries,
    {
        let k = self.worker_threads;
        let q = self.entries / k;
        proof {
            vstd::arithmetic::div_mod::lemma_fundamental_div_mod(self.entries as int, k as int);
            vstd::arithmetic::div_mod::lemma_mod_bound(self.entries as int, k as int);
            assert(0 <= q * (k - 1) <= self.entries) by (nonlinear_arith)
                requires
                    self.entries == k * q + self.entries as int % k as int,
                    0 <= self.entries as int % k as int,
                    1 <= k,
                    0 <= q,
            ;
            assert(0 <= q * worker <= q * (k - 1)) by (nonlinear_arith)
                requires
                    0 <= q,
                    0 <= worker <= k - 1,
            ;
        }
        if worker == k - 1 {
            self.entries - q * worker
        } else {
            q
        }
    }

    /// Gets the slice of repos the worker thread is supposed to work on,
    /// based on the [`WorkDivisionStrategy`]. `RANDOM` has no defined
    /// seeding policy, so it scrambles deterministically: worker `i`
    /// receives the percentile block of worker `k - 1 - i`.
    pub fn worker_slice(&self, worker: i32, trending_repo_urls: Vec<String>) -> (r: Vec<String>)
        requires
            1 <= self.worker_threads,
            0 <= worker < self.worker_threads,
            trending_repo_urls@.len() + self.worker_threads <= usize::MAX,
        ensures
            r@ == spec_worker_slice(
                trending_repo_urls@,
                worker as int,
                self.worker_threads as int,
                self.strategy,
            ),
    {
        match self.strategy {
            WorkDivisionStrategy::SUCCESSIVE => successive_part(
                &trending_repo_urls,
                worker as usize,
                self.worker_threads as usize,
            ),
            WorkDivisionStrategy::PERCENTILE => percentile_part(
                &trending_repo_urls,
                worker as usize,
                self.worker_threads as usize,
            ),
            WorkDivisionStrategy::RANDOM => percentile_part(
                &trending_repo_urls,
                (self.worker_threads - 1 - worker) as usize,
                self.worker_threads as usize,
            ),
        }
    }
}

/// How many positions `worker, worker + k, worker + 2k, ...` fall below
/// `n`.
pub open spec fn successive_count(n: int, worker: int, k: int) -> int {
    if worker >= n {
        0
    } else {
        (n - worker - 1) / k + 1
    }
}

/// The round-robin slice of worker `worker` among `k` workers: the
/// elements at positions `worker, worker + k, worker + 2k, ...`.
pub open spec fn successive_slice<T>(urls: Seq<T>, worker: int, k: int) -> Seq<T> {
    Seq::new(
        successive_count(urls.len() as int, worker, k) as nat,
        |j: int| urls[worker + j * k],
    )
}

/// Where the percentile block of worker `worker` among `k` workers starts.
pub open spec fn percentile_start(n: int, worker: int, k: int) -> int {
    worker * (n / k)
}

/// Where the percentile block of worker `worker` among `k` workers ends;
/// the last worker's block absorbs the remainder.
pub open spec fn percentile_end(n: int, worker: int, k: int) -> int {
    if worker == k - 1 {
        n
    } else {
        (worker + 1) * (n / k)
    }
}

/// The contiguous percentile block of worker `worker` among `k` workers.
pub open spec fn percentile_slice<T>(urls: Seq<T>, worker: int, k: int) -> Seq<T> {
    urls.subrange(
        percentile_start(urls.len() as int, worker, k),
        percentile_end(urls.len() as int, worker, k),
    )
}

/// The slice a worker receives under each division strategy.
pub open spec fn spec_worker_slice<T>(
    urls: Seq<T>,
    worker: int,
    k: int,
    strategy: WorkDivisionStrategy,
) -> Seq<T> {
    match strategy {
        WorkDivisionStrategy::SUCCESSIVE => successive_slice(urls, worker, k),
        WorkDivisionStrategy::PERCENTILE => percentile_slice(urls, worker, k),
        WorkDivisionStrategy::RANDOM => percentile_slice(urls, k - 1 - worker, k),
    }
}

/// The quota of records worker `worker` among `k` workers must collect
/// towards `entries` requested records in all.
pub open spec fn spec_worker_quota(entries: int, k: int, worker: int) -> int {
    if worker == k - 1 {
        entries - (entries / k) * (k - 1)
    } else {
        entries / k
    }
}

/// The sum of the quotas of workers `0 .. upto`.
pub open spec fn quota_sum(entries: int, k: int, upto: int) -> int
    decreases upto,
{
    if upto <= 0 {
        0
    } else {
        quota_sum(entries, k, upto - 1) + spec_worker_quota(entries, k, upto - 1)
    }
}

/// The percentile block of every worker lies within the list.
pub proof fn lemma_percentile_bounds(n: int, k: int, worker: int)
    requires
        1 <= k,
        0 <= worker < k,
        0 <= n,
    ensures
        0 <= percentile_start(n, worker, k),
        percentile_start(n, worker, k) <= percentile_end(n, worker, k),
        percentile_end(n, worker, k) <= n,
{
    let s = n / k;
    vstd::arithmetic::div_mod::lemma_fundamental_div_mod(n, k);
    vstd::arithmetic::div_mod::lemma_mod_bound(n, k);
    assert(0 <= s) by (nonlinear_arith)
        requires
            n == k * s + n % k,
            0 <= n % k < k,
            1 <= k,
            0 <= n,
    ;
    assert(0 <= worker * s) by (nonlinear_arith)
        requires
            0 <= worker,
            0 <= s,
    ;
    assert(worker * s <= (worker + 1) * s) by (nonlinear_arith)
        requires
            0 <= s,
    ;
    assert((worker + 1) * s <= k * s) by (nonlinear_arith)
        requires
            worker + 1 <= k,
            0 <= s,
    ;
    assert(k * s <= n);
}

/// PERCENTILE slice sizes: every worker but the last receives
/// `floor(n / k)` elements; the last receives the rest,
/// `n - (k - 1) * floor(n / k)`. Blocks are contiguous: each block ends
/// where the next begins.
pub proof fn lemma_percentile_sizes<T>(urls: Seq<T>, k: int)
    requires
        1 <= k,
    ensures
        forall|w: int|
            0 <= w < k - 1 ==> #[trigger] percentile_slice(urls, w, k).len() == urls.len() as int
                / k,
        percentile_slice(urls, k - 1, k).len() == urls.len() - (k - 1) * (urls.len() as int / k),
        forall|w: int|
            0 <= w < k - 1 ==> #[trigger] percentile_end(urls.len() as int, w, k)
                == percentile_start(urls.len() as int, w + 1, k),
        forall|w: int|
            0 <= w < k ==> 0 <= #[trigger] percentile_start(urls.len() as int, w, k)
                <= percentile_end(urls.len() as int, w, k) <= urls.len(),
        forall|w1: int, w2: int|
            0 <= w1 < w2 < k ==> #[trigger] percentile_end(urls.len() as int, w1, k)
                <= #[trigger] percentile_start(urls.len() as int, w2, k),
{
    let n = urls.len() as int;
    let s = n / k;
    assert forall|w: int| 0 <= w < k implies 0 <= #[trigger] percentile_start(n, w, k)
        <= percentile_end(n, w, k) <= n by {
        lemma_percentile_bounds(n, k, w);
    }
    assert forall|w1: int, w2: int| 0 <= w1 < w2 < k implies #[trigger] percentile_end(n, w1, k)
        <= #[trigger] percentile_start(n, w2, k) by {
        lemma_percentile_bounds(n, k, w1);
        lemma_percentile_bounds(n, k, w2);
        assert((w1 + 1) * s <= w2 * s) by (nonlinear_arith)
            requires
                w1 + 1 <= w2,
                0 <= s,
        ;
    }
    assert forall|w: int| 0 <= w < k - 1 implies #[trigger] percentile_slice(urls, w, k).len() == n
        / k by {
        lemma_percentile_bounds(n, k, w);
        assert((w + 1) * s - w * s == s) by (nonlinear_arith);
    }
    lemma_percentile_bounds(n, k, k - 1);
}

/// Every position of the original list is recovered by interleaving the
/// SUCCESSIVE slices: position `p` is element `p / k` of the slice of
/// worker `p % k`.
pub proof fn lemma_successive_interleave_recovers<T>(urls: Seq<T>, k: int, p: int)
    requires
        1 <= k,
        0 <= p < urls.len(),
    ensures
        0 <= p % k < k,
        0 <= p / k < successive_slice(urls, p % k, k).len(),
        successive_slice(urls, p % k, k)[p / k] == urls[p],
{
    let n = urls.len() as int;
    vstd::arithmetic::div_mod::lemma_fundamental_div_mod(p, k);
    vstd::arithmetic::div_mod::lemma_mod_bound(p, k);
    let w = p % k;
    let j = p / k;
    assert(0 <= j) by (nonlinear_arith)
        requires
            p == k * j + w,
            0 <= w < k,
            0 <= p,
            1 <= k,
    ;
    assert(w + j * k == p) by (nonlinear_arith)
        requires
            p == k * j + w,
    ;
    // `j` is within the slice: `w + j * k == p <= n - 1`, so
    // `j <= (n - w - 1) / k`.
    let a = n - w - 1;
    assert(j * k <= a);
    vstd::arithmetic::div_mod::lemma_fundamental_div_mod(a, k);
    vstd::arithmetic::div_mod::lemma_mod_bound(a, k);
    assert(j <= a / k) by (nonlinear_arith)
        requires
            j * k <= a,
            a == k * (a / k) + a % k,
            0 <= a % k < k,
            0 <= j,
            1 <= k,
    ;
    assert(w < n);
    assert(successive_count(n, w, k) == a / k + 1);
    assert(successive_slice(urls, w, k)[j] == urls[w + j * k]);
}

/// SUCCESSIVE slices are pairwise disjoint: two different workers never
/// receive the same position of the original list.
pub proof fn lemma_successive_disjoint(k: int, w1: int, j1: int, w2: int, j2: int)
    requires
        1 <= k,
        0 <= w1 < k,
        0 <= w2 < k,
        0 <= j1,
        0 <= j2,
        w1 != w2,
    ensures
        w1 + j1 * k != w2 + j2 * k,
{
    if w1 + j1 * k == w2 + j2 * k {
        if j1 == j2 {
            assert(w1 == w2);
        } else if j1 < j2 {
            assert(w1 - w2 == (j2 - j1) * k) by (nonlinear_arith)
                requires
                    w1 + j1 * k == w2 + j2 * k,
            ;
            assert((j2 - j1) * k >= k) by (nonlinear_arith)
                requires
                    j2 - j1 >= 1,
                    k >= 1,
            ;
        } else {
            assert(w2 - w1 == (j1 - j2) * k) by (nonlinear_arith)
                requires
                    w1 + j1 * k == w2 + j2 * k,
            ;
            assert((j1 - j2) * k >= k) by (nonlinear_arith)
                requires
                    j1 - j2 >= 1,
                    k >= 1,
            ;
        }
    }
}

/// The quotas of all `k` workers sum to the requested entry count exactly,
/// every worker but the last receives `floor(entries / k)`, and the last
/// worker's quota differs from that exactly when the division leaves a
/// remainder.
pub proof fn lemma_quota_sum(entries: int, k: int)
    requires
        1 <= k,
        0 <= entries,
    ensures
        quota_sum(entries, k, k) == entries,
        forall|w: int|
            0 <= w < k - 1 ==> #[trigger] spec_worker_quota(entries, k, w) == entries / k,
        spec_worker_quota(entries, k, k - 1) == entries / k + entries % k,
        spec_worker_quota(entries, k, k - 1) == entries / k <==> entries % k == 0,
{
    let q = entries / k;
    vstd::arithmetic::div_mod::lemma_fundamental_div_mod(entries, k);
    lemma_quota_sum_partial(entries, k, k - 1);
    assert(q * (k - 1) == k * q - q) by (nonlinear_arith);
    assert((k - 1) * q == k * q - q) by (nonlinear_arith);
}

/// The sum of the quotas of the first `m` workers, none of them the last,
/// is `m * floor(entries / k)`.
proof fn lemma_quota_sum_partial(entries: int, k: int, m: int)
    requires
        1 <= k,
        0 <= m <= k - 1,
    ensures
        quota_sum(entries, k, m) == m * (entries / k),
    decreases m,
{
    let q = entries / k;
    if m == 0 {
        assert(0 * q == 0) by (nonlinear_arith);
    } else {
        lemma_quota_sum_partial(entries, k, m - 1);
        assert((m - 1) * q + q == m * q) by (nonlinear_arith);
    }
}

/// The round-robin slice of one worker, built by stepping through the list
/// `k` positions at a time.
fn successive_part(urls: &Vec<String>, worker: usize, k: usize) -> (r: Vec<String>)
    requires
        1 <= k,
        worker < k,
        urls@.len() + k <= usize::MAX,
    ensures
        r@ == successive_slice(urls@, worker as int, k as int),
{
    let n = urls.len();
    let mut out: Vec<String> = Vec::new();
    let mut idx: usize = worker;
    let ghost mut j: int = 0;
    while idx < n
        invariant
            1 <= k,
            n == urls@.len(),
            n + k <= usize::MAX,
            0 <= j,
            idx == worker + j * k,
            j > 0 ==> worker + (j - 1) * k < n,
            out@.len() == j,
            forall|j0: int| 0 <= j0 < j ==> out@[j0] == urls@[worker as int + j0 * k],
        decreases n + k - idx,
    {
        out.push(urls[idx].clone());
        idx += k;
        proof {
            assert((j + 1) * k == j * k + k) by (nonlinear_arith);
            j = j + 1;
        }
    }
    proof {
        let w = worker as int;
        let nn = n as int;
        let kk = k as int;
        if j == 0 {
            assert(w >= nn);
            assert(successive_count(nn, w, kk) == 0);
        } else {
            // The last pushed position is below `n`, the next is not, so
            // `j - 1` is exactly `(n - worker - 1) / k`.
            let a = nn - w - 1;
            assert((j - 1) * kk == j * kk - kk) by (nonlinear_arith);
            assert(w + (j - 1) * kk < nn);
            assert(a - (j - 1) * kk >= 0);
            assert(a - (j - 1) * kk < kk);
            vstd::arithmetic::div_mod::lemma_fundamental_div_mod_converse(
                a,
                kk,
                j - 1,
                a - (j - 1) * kk,
            );
            assert(w < nn);
            assert(successive_count(nn, w, kk) == j);
        }
        assert(out@ =~= successive_slice(urls@, w, kk));
    }
    out
}

/// What one worker's loop produced: its records, and whether it reached
/// its quota. A shortfall is a soft outcome, not an error.
pub struct WorkerResult {
    pub records: Vec<AnalyzedFile>,
    pub quota_met: bool,
}

/// The records one worker collects over its slice: repository by
/// repository, each mined with the quota that is still open; a repository
/// whose clone failed contributes nothing and is skipped.
pub open spec fn spec_worker(
    repos: Seq<RepoHistory>,
    policy: VulnerableCommitIdentifier,
    quota: nat,
) -> Seq<AnalyzedFileView>
    decreases repos.len(),
{
    if repos.len() == 0 || quota == 0 {
        Seq::empty()
    } else {
        let r0 = repos[0];
        if !r0.clone_ok {
            spec_worker(repos.drop_first(), policy, quota)
        } else {
            let got = spec_mine_commits(r0.url@, policy, quota, r0.commits@);
            got + spec_worker(repos.drop_first(), policy, (quota - got.len()) as nat)
        }
    }
}

/// A worker never collects more records than its quota.
pub proof fn lemma_worker_len(
    repos: Seq<RepoHistory>,
    policy: VulnerableCommitIdentifier,
    quota: nat,
)
    ensures
        spec_worker(repos, policy, quota).len() <= quota,
    decreases repos.len(),
{
    if repos.len() > 0 && quota > 0 {
        let r0 = repos[0];
        if !r0.clone_ok {
            lemma_worker_len(repos.drop_first(), policy, quota);
        } else {
            let got = spec_mine_commits(r0.url@, policy, quota, r0.commits@);
            lemma_mine_commits_len(r0.url@, policy, quota, r0.commits@);
            lemma_worker_len(repos.drop_first(), policy, (quota - got.len()) as nat);
        }
    }
}

/// A repository whose clone fails is skipped without aborting the worker:
/// the worker's yield is exactly that of the rest of its slice.
pub proof fn lemma_clone_failure_skipped(
    repos: Seq<RepoHistory>,
    policy: VulnerableCommitIdentifier,
    quota: nat,
)
    requires
        repos.len() > 0,
        !repos[0].clone_ok,
    ensures
        spec_worker(repos, policy, quota) == spec_worker(repos.drop_first(), policy, quota),
{
}

/// Runs one worker's loop over the reported outcomes for its slice:
/// repositories are mined one at a time, each up to the still-open quota;
/// failed clones are skipped; the loop stops once the quota is met or the
/// slice is exhausted.
pub fn run_worker(
    repos: &Vec<RepoHistory>,
    policy: VulnerableCommitIdentifier,
    quota: usize,
) -> (w: WorkerResult)
    requires
        forall|i: int| 0 <= i < repos@.len() ==> (#[trigger] repos@[i]).commits@.len() < usize::MAX,
    ensures
        w.records.deep_view() == spec_worker(repos@, policy, quota as nat),
        w.records@.len() <= quota,
        w.quota_met == (w.records@.len() == quota),
{
    let ghost full = spec_worker(repos@, policy, quota as nat);
    let mut out: Vec<AnalyzedFile> = Vec::new();
    let n = repos.len();
    let mut i: usize = 0;
    proof {
        assert(repos@.skip(0) =~= repos@);
        assert(out.deep_view() =~= Seq::<AnalyzedFileView>::empty());
        assert(out.deep_view() + full =~= full);
    }
    while i < n && out.len() < quota
        invariant
            i <= n == repos@.len(),
            forall|i0: int|
                0 <= i0 < repos@.len() ==> (#[trigger] repos@[i0]).commits@.len() < usize::MAX,
            out@.len() <= quota,
            out.deep_view().len() == out@.len(),
            out.deep_view() + spec_worker(
                repos@.skip(i as int),
                policy,
                (quota - out@.len()) as nat,
            ) == full,
        decreases n - i,
    {
        let ghost rest = repos@.skip(i as int);
        let ghost rem = (quota - out@.len()) as nat;
        proof {
            assert(rest[0] == repos@[i as int]);
            assert(rest.drop_first() =~= repos@.skip(i + 1));
        }
        match mine_repository(&repos[i], policy, quota - out.len()) {
            Ok(mut got) => {
                let ghost pre = out.deep_view();
                let ghost pre_len = out@.len();
                let ghost got_deep = got.deep_view();
                proof {
                    lemma_mine_commits_len(
                        repos@[i as int].url@,
                        policy,
                        rem,
                        repos@[i as int].commits@,
                    );
                }
                out.append(&mut got);
                proof {
                    assert(out.deep_view() =~= pre + got_deep);
                    assert(spec_worker(rest, policy, rem) == got_deep + spec_worker(
                        rest.drop_first(),
                        policy,
                        (rem - got_deep.len()) as nat,
                    ));
                    assert(pre + (got_deep + spec_worker(
                        repos@.skip(i + 1),
                        policy,
                        (quota - out@.len()) as nat,
                    )) =~= (pre + got_deep) + spec_worker(
                        repos@.skip(i + 1),
                        policy,
                        (quota - out@.len()) as nat,
                    ));
                }
            },
            Err(_) => {
                proof {
                    assert(!repos@[i as int].clone_ok);
                    if rem > 0 {
                        assert(spec_worker(rest, policy, rem) == spec_worker(
                            rest.drop_first(),
                            policy,
                            rem,
                        ));
                    } else {
                        assert(spec_worker(rest, policy, rem).len() == 0);
                        assert(spec_worker(rest.drop_first(), policy, rem).len() == 0);
                    }
                }
            },
        }
        i += 1;
    }
    proof {
        if out@.len() == quota {
            assert(spec_worker(repos@.skip(i as int), policy, 0nat).len() == 0);
        } else {
            assert(i == n);
            assert(repos@.skip(i as int) =~= Seq::<RepoHistory>::empty());
        }
        assert(out.deep_view() + spec_worker(
            repos@.skip(i as int),
            policy,
            (quota - out@.len()) as nat,
        ) =~= out.deep_view());
    }
    let quota_met = out.len() == quota;
    WorkerResult { records: out, quota_met }
}

/// The concatenation of the workers' records, in worker-index order.
pub open spec fn flatten_worker_records(ws: Seq<WorkerResult>) -> Seq<AnalyzedFile>
    decreases ws.len(),
{
    if ws.len() == 0 {
        Seq::empty()
    } else {
        ws[0].records@ + flatten_worker_records(ws.drop_first())
    }
}

/// How many workers fell short of their quota.
pub open spec fn count_unmet(ws: Seq<WorkerResult>) -> int
    decreases ws.len(),
{
    if ws.len() == 0 {
        0
    } else {
        (if ws[0].quota_met {
            0int
        } else {
            1int
        }) + count_unmet(ws.drop_first())
    }
}

/// The aggregate of one run: every worker's records concatenated in
/// worker-index order, and how many workers fell short of their quota.
pub struct RunOutcome {
    pub records: Vec<AnalyzedFile>,
    pub workers_under_quota: usize,
}

/// Aggregates the workers' results once all workers have finished:
/// concatenation in worker-index order, and the count of soft
/// under-fulfillments.
pub fn aggregate_results(workers: Vec<WorkerResult>) -> (r: RunOutcome)
    ensures
        r.records@ == flatten_worker_records(workers@),
        r.workers_under_quota == count_unmet(workers@),
{
    let ghost orig = workers@;
    let mut rest = workers;
    let total = rest.len();
    let mut out: Vec<AnalyzedFile> = Vec::new();
    let mut unmet: usize = 0;
    proof {
        assert(out@ + flatten_worker_records(orig) =~= flatten_worker_records(orig));
    }
    while rest.len() > 0
        invariant
            total == orig.len(),
            out@ + flatten_worker_records(rest@) == flatten_worker_records(orig),
            unmet + count_unmet(rest@) == count_unmet(orig),
            unmet <= orig.len() - rest@.len(),
        decreases rest@.len(),
    {
        let ghost pre_rest = rest@;
        let w = rest.remove(0);
        proof {
            assert(rest@ =~= pre_rest.drop_first());
        }
        let WorkerResult { records: mut records, quota_met } = w;
        let ghost pre_out = out@;
        out.append(&mut records);
        proof {
            assert(pre_out + (w.records@ + flatten_worker_records(rest@)) =~= (pre_out
                + w.records@) + flatten_worker_records(rest@));
        }
        if !quota_met {
            unmet += 1;
        }
    }
    proof {
        assert(flatten_worker_records(rest@).len() == 0);
        assert(out@ + flatten_worker_records(rest@) =~= out@);
    }
    RunOutcome { records: out, workers_under_quota: unmet }
}

/// The contiguous percentile block of one worker.
fn percentile_part(urls: &Vec<String>, worker: usize, k: usize) -> (r: Vec<String>)
    requires
        1 <= k,
        worker < k,
    ensures
        r@ == percentile_slice(urls@, worker as int, k as int),
{
    let n = urls.len();
    proof {
        lemma_percentile_bounds(n as int, k as int, worker as int);
    }
    let s = n / k;
    let start = worker * s;
    let end = if worker == k - 1 {
        n
    } else {
        proof {
            assert((worker as int + 1) * (s as int) == worker as int * (s as int) + s as int)
                by (nonlinear_arith);
        }
        start + s
    };
    let mut out: Vec<String> = Vec::new();
    let mut i: usize = start;
    while i < end
        invariant
            start <= i <= end,
            end <= n == urls@.len(),
            out@ =~= urls@.subrange(start as int, i as int),
        decreases end - i,
    {
        out.push(urls[i].clone());
        i += 1;
        proof {
            assert(urls@.subrange(start as int, i as int) =~= urls@.subrange(
                start as int,
                i - 1,
            ).push(urls@[i - 1]));
        }
    }
    proof {
        assert(out@ =~= percentile_slice(urls@, worker as int, k as int));
    }
    out
}

/// Indicates how work should be divided among worker threads
/// when cloning repositories and searching for vulnerabilities.
#[derive(Copy, Clone, PartialEq, Eq, Structural, Debug)]
pub enum WorkDivisionStrategy {
    /// Each worker thread takes every next repository in turn, interleaved
    /// round-robin: worker `i` receives positions `i, i + k, i + 2k, ...`
    /// of the list for `k` workers.
    SUCCESSIVE,
    /// Each worker thread takes one contiguous percentile block of the
    /// list; the last worker absorbs the remainder.
    PERCENTILE,
    /// The percentile blocks are handed out in scrambled order. No seeding
    /// policy is defined for this strategy, so the scrambling is the
    /// deterministic one documented at [`VCGenerator::worker_slice`]:
    /// worker `i` receives the block of worker `k - 1 - i`.
    RANDOM,
}

impl Default for WorkDivisionStrategy {
    /// Work is divided round-robin unless asked otherwise.
    fn default() -> (r: Self)
        ensures
            r == WorkDivisionStrategy::SUCCESSIVE,
    {
        WorkDivisionStrategy::SUCCESSIVE
    }
}

} // verus!
