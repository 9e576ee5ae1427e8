//! Mining one repository: the per-repository state machine that walks a
//! cloned repository's history newest-first, classifies commits, and emits
//! analyzed-file records up to a quota.
//!
//! Cloning, history walking, file extraction and analyzer runs happen
//! outside this crate; their outcomes arrive as events. The machine decides
//! everything: whether a commit is relevant, whether an extraction becomes
//! a record, and when mining stops.

use vstd::prelude::*;

use crate::analyzer::AnalysisResult;
use crate::classify::{classify, spec_classify, CommitRecord};
use crate::policy::VulnerableCommitIdentifier;
use crate::record::{AnalyzedFile, AnalyzedFileView};

verus! {

/// Why a repository contributed nothing.
#[derive(Copy, Clone, PartialEq, Eq, Structural, Debug)]
pub enum MinerError {
    /// The repository could not be cloned. Recoverable: the worker skips
    /// the repository and continues with its slice.
    CloneFailed,
}

/// The phases of the mining state machine.
#[derive(Copy, Clone, PartialEq, Eq, Structural, Debug)]
pub enum MinerPhase {
    /// Nothing has happened yet.
    Idle,
    /// The repository was cloned; no commit has been examined.
    Cloned,
    /// Commits are being examined.
    Scanning,
    /// A relevant commit's files are being extracted and analyzed.
    Extracting,
    /// Mining ended: the quota was reached or history ran out.
    Exhausted,
    /// The clone failed; nothing will be emitted.
    Failed,
}

/// The per-repository miner. It never emits more records than its quota,
/// and never emits a record for a commit that fails the classification
/// policy: both are part of [`Self::wf`], which every step preserves.
pub struct RepositoryMiner {
    pub repo_url: String,
    pub policy: VulnerableCommitIdentifier,
    pub quota: usize,
    /// How many commits have been examined.
    pub cursor: usize,
    pub records: Vec<AnalyzedFile>,
    pub phase: MinerPhase,
    /// The hash of the commit being extracted; meaningful in
    /// `Extracting`.
    pub current_hash: String,
    /// The message of the commit being extracted; meaningful in
    /// `Extracting`.
    pub current_message: Ghost<Seq<char>>,
    /// For each record, the hash and message of the commit it was
    /// extracted at.
    pub sources: Ghost<Seq<(Seq<char>, Seq<char>)>>,
}

impl RepositoryMiner {
    /// The machine's invariant: no more records than the quota, every
    /// record from this repository, and every record's commit classified
    /// security-relevant under the policy.
    pub open spec fn wf(&self) -> bool {
        &&& self.records@.len() <= self.quota
        &&& self.sources@.len() == self.records@.len()
        &&& forall|i: int|
            0 <= i < self.records@.len() ==> {
                &&& (#[trigger] self.records@[i]).repo_url@ == self.repo_url@
                &&& self.records@[i].commit_hash@ == self.sources@[i].0
                &&& spec_classify(self.sources@[i].1, self.policy)
            }
        &&& self.phase == MinerPhase::Extracting ==> spec_classify(
            self.current_message@,
            self.policy,
        )
    }

    /// Starts a miner for one repository, idle until the clone's outcome
    /// arrives.
    pub fn new(repo_url: String, policy: VulnerableCommitIdentifier, quota: usize) -> (m: Self)
        ensures
            m.wf(),
            m.repo_url == repo_url,
            m.policy == policy,
            m.quota == quota,
            m.cursor == 0,
            m.records@ =~= Seq::<AnalyzedFile>::empty(),
            m.phase == MinerPhase::Idle,
    {
        RepositoryMiner {
            repo_url,
            policy,
            quota,
            cursor: 0,
            records: Vec::new(),
            phase: MinerPhase::Idle,
            current_hash: String::new(),
            current_message: Ghost(Seq::empty()),
            sources: Ghost(Seq::empty()),
        }
    }

    /// Takes the clone's outcome: the machine proceeds to scanning on
    /// success and fails permanently otherwise.
    pub fn clone_result(&mut self, success: bool)
        requires
            old(self).wf(),
            old(self).phase == MinerPhase::Idle,
        ensures
            final(self).wf(),
            *final(self) == (RepositoryMiner {
                phase: if success {
                    MinerPhase::Cloned
                } else {
                    MinerPhase::Failed
                },
                ..*old(self)
            }),
    {
        self.phase = if success {
            MinerPhase::Cloned
        } else {
            MinerPhase::Failed
        };
    }

    /// Examines the next commit of the walk, newest first. The commit is
    /// relevant — and extraction starts — exactly when the quota is not
    /// yet reached and the commit classifies as security-relevant under
    /// the policy. When the quota is already reached the machine is
    /// exhausted instead.
    pub fn offer_commit(&mut self, commit: &CommitRecord) -> (relevant: bool)
        requires
            old(self).wf(),
            old(self).phase == MinerPhase::Cloned || old(self).phase == MinerPhase::Scanning,
            old(self).cursor < usize::MAX,
        ensures
            final(self).wf(),
            relevant == (old(self).records@.len() < old(self).quota && spec_classify(
                commit.message@,
                old(self).policy,
            )),
            final(self).records == old(self).records,
            final(self).repo_url == old(self).repo_url,
            final(self).policy == old(self).policy,
            final(self).quota == old(self).quota,
            final(self).sources == old(self).sources,
            final(self).cursor == old(self).cursor + 1,
            relevant ==> final(self).phase == MinerPhase::Extracting
                && final(self).current_hash@ == commit.hash@,
            !relevant ==> final(self).phase == (if old(self).records@.len() >= old(self).quota {
                MinerPhase::Exhausted
            } else {
                MinerPhase::Scanning
            }) && final(self).current_hash == old(self).current_hash,
    {
        self.cursor = self.cursor + 1;
        let quota_left = self.records.len() < self.quota;
        let relevant = quota_left && classify(commit, self.policy);
        if relevant {
            self.phase = MinerPhase::Extracting;
            self.current_hash = commit.hash.clone();
            self.current_message = Ghost(commit.message@);
        } else if !quota_left {
            self.phase = MinerPhase::Exhausted;
        } else {
            self.phase = MinerPhase::Scanning;
        }
        relevant
    }

    /// Takes one extracted file of the relevant commit together with what
    /// the analyzer reported about it. A record is emitted exactly when
    /// the quota is not yet reached and the analyzer produced a result.
    pub fn file_extracted(
        &mut self,
        repo_file_path: String,
        code: String,
        flawfinder: Option<AnalysisResult>,
    ) -> (emitted: bool)
        requires
            old(self).wf(),
            old(self).phase == MinerPhase::Extracting,
        ensures
            final(self).wf(),
            emitted == (old(self).records@.len() < old(self).quota && flawfinder is Some),
            final(self).phase == MinerPhase::Extracting,
            final(self).repo_url == old(self).repo_url,
            final(self).policy == old(self).policy,
            final(self).quota == old(self).quota,
            final(self).cursor == old(self).cursor,
            final(self).current_hash == old(self).current_hash,
            final(self).current_message == old(self).current_message,
            !emitted ==> final(self).records == old(self).records,
            emitted ==> {
                &&& final(self).records@.len() == old(self).records@.len() + 1
                &&& final(self).records@.drop_last() == old(self).records@
                &&& final(self).records@.last()@ == (AnalyzedFileView {
                    repo_url: old(self).repo_url@,
                    commit_hash: old(self).current_hash@,
                    repo_file_path: repo_file_path@,
                    code: code@,
                    flawfinder_results: Some(flawfinder->Some_0.findings.deep_view()),
                    flawfinder_cwes: Some(flawfinder->Some_0.weakness_ids.deep_view()),
                })
            },
    {
        let quota_left = self.records.len() < self.quota;
        match flawfinder {
            Some(analysis) => {
                if quota_left {
                    let record = AnalyzedFile::new(
                        self.repo_url.clone(),
                        self.current_hash.clone(),
                        repo_file_path,
                        code,
                        Some(analysis.findings),
                        Some(analysis.weakness_ids),
                    );
                    let ghost pre = self.records@;
                    self.records.push(record);
                    self.sources = Ghost(
                        self.sources@.push((self.current_hash@, self.current_message@)),
                    );
                    proof {
                        assert(self.records@.drop_last() =~= pre);
                    }
                    true
                } else {
                    false
                }
            },
            None => false,
        }
    }

    /// Ends the relevant commit's extraction: back to scanning, or
    /// exhausted when the quota was reached.
    pub fn extraction_done(&mut self)
        requires
            old(self).wf(),
            old(self).phase == MinerPhase::Extracting,
        ensures
            final(self).wf(),
            *final(self) == (RepositoryMiner {
                phase: if old(self).records@.len() >= old(self).quota {
                    MinerPhase::Exhausted
                } else {
                    MinerPhase::Scanning
                },
                ..*old(self)
            }),
    {
        self.phase = if self.records.len() >= self.quota {
            MinerPhase::Exhausted
        } else {
            MinerPhase::Scanning
        };
    }

    /// Ends the walk: history ran out.
    pub fn history_exhausted(&mut self)
        requires
            old(self).wf(),
            old(self).phase == MinerPhase::Cloned || old(self).phase == MinerPhase::Scanning,
        ensures
            final(self).wf(),
            *final(self) == (RepositoryMiner { phase: MinerPhase::Exhausted, ..*old(self) }),
    {
        self.phase = MinerPhase::Exhausted;
    }

    /// The records collected so far.
    pub fn records(&self) -> (r: &Vec<AnalyzedFile>)
        ensures
            r == self.records,
    {
        &self.records
    }

    /// The machine's phase.
    pub fn phase(&self) -> (r: MinerPhase)
        ensures
            r == self.phase,
    {
        self.phase
    }

    /// Hands the collected records out, consuming the miner.
    pub fn take_records(self) -> (r: Vec<AnalyzedFile>)
        ensures
            r == self.records,
    {
        self.records
    }
}

/// One extracted file of a relevant commit, together with what the
/// analyzer reported about it: `None` when the analyzer was not run or
/// failed on it.
pub struct ExtractedFile {
    pub repo_file_path: String,
    pub code: String,
    pub flawfinder: Option<AnalysisResult>,
}

/// One commit of the walk with the extraction outcomes of the files it
/// touches.
pub struct CommitStep {
    pub commit: CommitRecord,
    pub files: Vec<ExtractedFile>,
}

/// What the outside work reported about one repository: whether the clone
/// succeeded and, if so, its commit history newest-first with each
/// commit's extraction outcomes.
pub struct RepoHistory {
    pub url: String,
    pub clone_ok: bool,
    pub commits: Vec<CommitStep>,
}

/// The record one extracted file of a relevant commit becomes.
pub open spec fn file_record_view(repo_url: Seq<char>, hash: Seq<char>, f: ExtractedFile) -> AnalyzedFileView {
    AnalyzedFileView {
        repo_url: repo_url,
        commit_hash: hash,
        repo_file_path: f.repo_file_path@,
        code: f.code@,
        flawfinder_results: Some(f.flawfinder->Some_0.findings.deep_view()),
        flawfinder_cwes: Some(f.flawfinder->Some_0.weakness_ids.deep_view()),
    }
}

/// The records one relevant commit's files yield, at most `quota` of
/// them: one record per file whose analysis produced a result, in file
/// order.
pub open spec fn spec_emit_files(
    repo_url: Seq<char>,
    hash: Seq<char>,
    files: Seq<ExtractedFile>,
    quota: nat,
) -> Seq<AnalyzedFileView>
    decreases files.len(),
{
    if files.len() == 0 || quota == 0 {
        Seq::empty()
    } else if files[0].flawfinder is Some {
        seq![file_record_view(repo_url, hash, files[0])] + spec_emit_files(
            repo_url,
            hash,
            files.drop_first(),
            (quota - 1) as nat,
        )
    } else {
        spec_emit_files(repo_url, hash, files.drop_first(), quota)
    }
}

/// A commit's files never yield more records than the quota.
pub proof fn lemma_emit_files_len(
    repo_url: Seq<char>,
    hash: Seq<char>,
    files: Seq<ExtractedFile>,
    quota: nat,
)
    ensures
        spec_emit_files(repo_url, hash, files, quota).len() <= quota,
    decreases files.len(),
{
    if files.len() > 0 && quota > 0 {
        if files[0].flawfinder is Some {
            lemma_emit_files_len(repo_url, hash, files.drop_first(), (quota - 1) as nat);
        } else {
            lemma_emit_files_len(repo_url, hash, files.drop_first(), quota);
        }
    }
}

/// The records mining a history yields: the walk visits commits
/// newest-first, a commit's files contribute only when the commit
/// classifies as security-relevant, and the walk stops once `quota`
/// records are collected.
pub open spec fn spec_mine_commits(
    repo_url: Seq<char>,
    policy: VulnerableCommitIdentifier,
    quota: nat,
    commits: Seq<CommitStep>,
) -> Seq<AnalyzedFileView>
    decreases commits.len(),
{
    if commits.len() == 0 || quota == 0 {
        Seq::empty()
    } else {
        let step = commits[0];
        if spec_classify(step.commit.message@, policy) {
            let got = spec_emit_files(repo_url, step.commit.hash@, step.files@, quota);
            got + spec_mine_commits(
                repo_url,
                policy,
                (quota - got.len()) as nat,
                commits.drop_first(),
            )
        } else {
            spec_mine_commits(repo_url, policy, quota, commits.drop_first())
        }
    }
}

/// A repository miner never yields more records than its quota, however
/// many matching commits the history holds.
pub proof fn lemma_mine_commits_len(
    repo_url: Seq<char>,
    policy: VulnerableCommitIdentifier,
    quota: nat,
    commits: Seq<CommitStep>,
)
    ensures
        spec_mine_commits(repo_url, policy, quota, commits).len() <= quota,
    decreases commits.len(),
{
    if commits.len() > 0 && quota > 0 {
        let step = commits[0];
        if spec_classify(step.commit.message@, policy) {
            let got = spec_emit_files(repo_url, step.commit.hash@, step.files@, quota);
            lemma_emit_files_len(repo_url, step.commit.hash@, step.files@, quota);
            lemma_mine_commits_len(
                repo_url,
                policy,
                (quota - got.len()) as nat,
                commits.drop_first(),
            );
        } else {
            lemma_mine_commits_len(repo_url, policy, quota, commits.drop_first());
        }
    }
}

/// Clones a vector of strings, keeping every element.
fn clone_string_vec(v: &Vec<String>) -> (r: Vec<String>)
    ensures
        r@ == v@,
{
    let mut r: Vec<String> = Vec::new();
    let mut i: usize = 0;
    while i < v.len()
        invariant
            i <= v@.len(),
            r@ =~= v@.take(i as int),
        decreases v@.len() - i,
    {
        r.push(v[i].clone());
        i += 1;
    }
    proof {
        assert(v@.take(v@.len() as int) =~= v@);
    }
    r
}

/// Clones one analysis result, keeping findings and weakness identifiers.
fn clone_analysis(a: &AnalysisResult) -> (r: AnalysisResult)
    ensures
        r.findings@ == a.findings@,
        r.weakness_ids@ == a.weakness_ids@,
{
    AnalysisResult {
        findings: clone_string_vec(&a.findings),
        weakness_ids: clone_string_vec(&a.weakness_ids),
    }
}

/// Mines one repository from the reported outcomes of the outside work:
/// fails exactly when the clone failed, and otherwise collects the records
/// [`spec_mine_commits`] describes — never more than `quota` of them.
pub fn mine_repository(
    history: &RepoHistory,
    policy: VulnerableCommitIdentifier,
    quota: usize,
) -> (r: Result<Vec<AnalyzedFile>, MinerError>)
    requires
        history.commits@.len() < usize::MAX,
    ensures
        r is Err <==> !history.clone_ok,
        r is Err ==> r == Err::<Vec<AnalyzedFile>, MinerError>(MinerError::CloneFailed),
        r matches Ok(v) ==> {
            &&& v.deep_view() == spec_mine_commits(
                history.url@,
                policy,
                quota as nat,
                history.commits@,
            )
            &&& v@.len() <= quota
        },
{
    let ghost full = spec_mine_commits(history.url@, policy, quota as nat, history.commits@);
    let mut miner = RepositoryMiner::new(history.url.clone(), policy, quota);
    if !history.clone_ok {
        miner.clone_result(false);
        return Err(MinerError::CloneFailed);
    }
    miner.clone_result(true);
    let n = history.commits.len();
    let mut i: usize = 0;
    proof {
        assert(history.commits@.skip(0) =~= history.commits@);
        assert(miner.records.deep_view() =~= Seq::<AnalyzedFileView>::empty());
        assert(miner.records.deep_view() + full =~= full);
    }
    while i < n && miner.records.len() < quota
        invariant
            i <= n == history.commits@.len(),
            miner.wf(),
            miner.repo_url@ == history.url@,
            miner.policy == policy,
            miner.quota == quota,
            miner.cursor == i,
            miner.phase == MinerPhase::Cloned || miner.phase == MinerPhase::Scanning
                || miner.phase == MinerPhase::Exhausted,
            miner.records.deep_view().len() == miner.records@.len(),
            miner.records.deep_view() + spec_mine_commits(
                history.url@,
                policy,
                (quota - miner.records@.len()) as nat,
                history.commits@.skip(i as int),
            ) == full,
            miner.phase == MinerPhase::Exhausted ==> miner.records@.len() == quota,
        decreases n - i,
    {
        let step = &history.commits[i];
        let ghost pre_records = miner.records.deep_view();
        let ghost rem_quota = (quota - miner.records@.len()) as nat;
        let ghost rest = history.commits@.skip(i as int);
        proof {
            assert(rest[0] == history.commits@[i as int]);
            assert(rest.drop_first() =~= history.commits@.skip(i + 1));
        }
        let relevant = miner.offer_commit(&step.commit);
        if relevant {
            let ghost hash = step.commit.hash@;
            let ghost emit_full = spec_emit_files(history.url@, hash, step.files@, rem_quota);
            proof {
                lemma_emit_files_len(history.url@, hash, step.files@, rem_quota);
            }
            let m = step.files.len();
            let mut j: usize = 0;
            proof {
                assert(step.files@.skip(0) =~= step.files@);
            }
            while j < m
                invariant
                    j <= m == step.files@.len(),
                    miner.wf(),
                    miner.phase == MinerPhase::Extracting,
                    miner.repo_url@ == history.url@,
                    miner.policy == policy,
                    miner.quota == quota,
                    miner.cursor == i + 1,
                    i < n == history.commits@.len(),
                    miner.current_hash@ == hash,
                    miner.records.deep_view().len() == miner.records@.len(),
                    miner.records@.len() >= pre_records.len(),
                    rem_quota == quota - pre_records.len(),
                    miner.records.deep_view() =~= pre_records + emit_full.take(
                        miner.records@.len() - pre_records.len(),
                    ),
                    emit_full == emit_full.take(miner.records@.len() - pre_records.len())
                        + spec_emit_files(
                        history.url@,
                        hash,
                        step.files@.skip(j as int),
                        (quota - miner.records@.len()) as nat,
                    ),
                decreases m - j,
            {
                let f = &step.files[j];
                let ghost frest = step.files@.skip(j as int);
                proof {
                    assert(frest[0] == step.files@[j as int]);
                    assert(frest.drop_first() =~= step.files@.skip(j + 1));
                }
                let analysis = match &f.flawfinder {
                    Some(a) => Some(clone_analysis(a)),
                    None => None,
                };
                let ghost pre_deep = miner.records.deep_view();
                let ghost pre_len = miner.records@.len();
                let emitted = miner.file_extracted(
                    f.repo_file_path.clone(),
                    f.code.clone(),
                    analysis,
                );
                proof {
                    if emitted {
                        let done = (pre_len - pre_records.len()) as int;
                        assert(miner.records.deep_view() =~= pre_deep.push(
                            miner.records@.last()@,
                        ));
                        assert(miner.records@.last()@ == file_record_view(
                            history.url@,
                            hash,
                            step.files@[j as int],
                        ));
                        assert(spec_emit_files(
                            history.url@,
                            hash,
                            frest,
                            (quota - pre_len) as nat,
                        ) == seq![
                            file_record_view(history.url@, hash, step.files@[j as int]),
                        ] + spec_emit_files(
                            history.url@,
                            hash,
                            step.files@.skip(j + 1),
                            (quota - pre_len - 1) as nat,
                        ));
                        assert(emit_full[done] == file_record_view(
                            history.url@,
                            hash,
                            step.files@[j as int],
                        ));
                        assert(emit_full.take(done + 1) =~= emit_full.take(done).push(
                            emit_full[done],
                        ));
                        assert(miner.records.deep_view() =~= pre_records + emit_full.take(
                            miner.records@.len() - pre_records.len(),
                        ));
                        assert(emit_full =~= emit_full.take(done + 1) + spec_emit_files(
                            history.url@,
                            hash,
                            step.files@.skip(j + 1),
                            (quota - miner.records@.len()) as nat,
                        ));
                    } else {
                        if pre_len < quota {
                            assert(step.files@[j as int].flawfinder is None);
                            assert(spec_emit_files(
                                history.url@,
                                hash,
                                frest,
                                (quota - pre_len) as nat,
                            ) == spec_emit_files(
                                history.url@,
                                hash,
                                step.files@.skip(j + 1),
                                (quota - pre_len) as nat,
                            ));
                        } else {
                            assert(spec_emit_files(
                                history.url@,
                                hash,
                                frest,
                                (quota - pre_len) as nat,
                            ).len() == 0);
                            assert(spec_emit_files(
                                history.url@,
                                hash,
                                step.files@.skip(j + 1),
                                (quota - pre_len) as nat,
                            ).len() == 0);
                        }
                    }
                }
                j += 1;
            }
            proof {
                // The files ran out: nothing more is emitted for this
                // commit, so the commit's full yield has been collected.
                assert(step.files@.skip(m as int) =~= Seq::<ExtractedFile>::empty());
                assert(spec_emit_files(
                    history.url@,
                    hash,
                    step.files@.skip(m as int),
                    (quota - miner.records@.len()) as nat,
                ).len() == 0);
                assert(emit_full =~= emit_full.take(miner.records@.len() - pre_records.len()));
                assert(miner.records.deep_view() =~= pre_records + emit_full);
                assert(spec_mine_commits(history.url@, policy, rem_quota, rest) == emit_full
                    + spec_mine_commits(
                    history.url@,
                    policy,
                    (rem_quota - emit_full.len()) as nat,
                    rest.drop_first(),
                ));
                assert(pre_records + (emit_full + spec_mine_commits(
                    history.url@,
                    policy,
                    (quota - miner.records@.len()) as nat,
                    history.commits@.skip(i + 1),
                )) =~= (pre_records + emit_full) + spec_mine_commits(
                    history.url@,
                    policy,
                    (quota - miner.records@.len()) as nat,
                    history.commits@.skip(i + 1),
                ));
            }
            miner.extraction_done();
        } else {
            proof {
                if miner.records@.len() < quota {
                    assert(!spec_classify(step.commit.message@, policy));
                    assert(spec_mine_commits(history.url@, policy, rem_quota, rest)
                        == spec_mine_commits(
                        history.url@,
                        policy,
                        rem_quota,
                        rest.drop_first(),
                    ));
                } else {
                    assert(spec_mine_commits(history.url@, policy, rem_quota, rest).len() == 0);
                    assert(spec_mine_commits(
                        history.url@,
                        policy,
                        rem_quota,
                        rest.drop_first(),
                    ).len() == 0);
                }
            }
        }
        i += 1;
    }
    proof {
        if miner.records@.len() == quota {
            assert(spec_mine_commits(
                history.url@,
                policy,
                0nat,
                history.commits@.skip(i as int),
            ).len() == 0);
        } else {
            assert(i == n);
            assert(history.commits@.skip(i as int) =~= Seq::<CommitStep>::empty());
        }
        assert(miner.records.deep_view() + spec_mine_commits(
            history.url@,
            policy,
            (quota - miner.records@.len()) as nat,
            history.commits@.skip(i as int),
        ) =~= miner.records.deep_view());
    }
    if !(miner.phase() == MinerPhase::Exhausted) {
        miner.history_exhausted();
    }
    Ok(miner.take_records())
}

} // verus!
