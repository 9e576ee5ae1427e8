//! The unit of dataset output: one analyzed source-file snapshot.

use vstd::prelude::*;

verus! {

/// One dataset row: a source file's state at a security-relevant commit,
/// plus what each configured analyzer reported about it. A per-analyzer
/// field is `None` when the analyzer was not run, and holds empty lists
/// when it ran and found nothing. Immutable once constructed; owned
/// exclusively by the worker that created it until handed to the
/// aggregator.
pub struct AnalyzedFile {
    pub repo_url: String,
    pub commit_hash: String,
    pub repo_file_path: String,
    pub code: String,
    pub flawfinder_results: Option<Vec<String>>,
    pub flawfinder_cwes: Option<Vec<String>>,
}

/// The mathematical shadow of an [`AnalyzedFile`]: each text as a
/// character sequence.
#[verifier::ext_equal]
pub struct AnalyzedFileView {
    pub repo_url: Seq<char>,
    pub commit_hash: Seq<char>,
    pub repo_file_path: Seq<char>,
    pub code: Seq<char>,
    pub flawfinder_results: Option<Seq<Seq<char>>>,
    pub flawfinder_cwes: Option<Seq<Seq<char>>>,
}

impl View for AnalyzedFile {
    type V = AnalyzedFileView;

    open spec fn view(&self) -> AnalyzedFileView {
        AnalyzedFileView {
            repo_url: self.repo_url@,
            commit_hash: self.commit_hash@,
            repo_file_path: self.repo_file_path@,
            code: self.code@,
            flawfinder_results: self.flawfinder_results.deep_view(),
            flawfinder_cwes: self.flawfinder_cwes.deep_view(),
        }
    }
}

impl DeepView for AnalyzedFile {
    type V = AnalyzedFileView;

    open spec fn deep_view(&self) -> AnalyzedFileView {
        self.view()
    }
}

impl AnalyzedFile {
    /// Bundles one analyzed file.
    pub fn new(
        repo_url: String,
        commit_hash: String,
        repo_file_path: String,
        code: String,
        flawfinder_results: Option<Vec<String>>,
        flawfinder_cwes: Option<Vec<String>>,
    ) -> (r: Self)
        ensures
            r.repo_url == repo_url,
            r.commit_hash == commit_hash,
            r.repo_file_path == repo_file_path,
            r.code == code,
            r.flawfinder_results == flawfinder_results,
            r.flawfinder_cwes == flawfinder_cwes,
    {
        AnalyzedFile {
            repo_url,
            commit_hash,
            repo_file_path,
            code,
            flawfinder_results,
            flawfinder_cwes,
        }
    }

    pub fn repo_url(&self) -> (r: &String)
        ensures
            r == self.repo_url,
    {
        &self.repo_url
    }

    pub fn commit_hash(&self) -> (r: &String)
        ensures
            r == self.commit_hash,
    {
        &self.commit_hash
    }

    pub fn repo_file_path(&self) -> (r: &String)
        ensures
            r == self.repo_file_path,
    {
        &self.repo_file_path
    }

    pub fn code(&self) -> (r: &String)
        ensures
            r == self.code,
    {
        &self.code
    }

    pub fn flawfinder_results(&self) -> (r: Option<&Vec<String>>)
        ensures
            match r {
                Some(v) => self.flawfinder_results matches Some(w) && v == w,
                None => self.flawfinder_results is None,
            },
    {
        self.flawfinder_results.as_ref()
    }

    pub fn flawfinder_cwes(&self) -> (r: Option<&Vec<String>>)
        ensures
            match r {
                Some(v) => self.flawfinder_cwes matches Some(w) && v == w,
                None => self.flawfinder_cwes is None,
            },
    {
        self.flawfinder_cwes.as_ref()
    }
}

} // verus!
