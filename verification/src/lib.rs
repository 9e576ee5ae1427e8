//! Mining of public source-code repositories for examples of vulnerable and
//! benign code, producing a labeled training dataset.
//!
//! The crate holds the concurrent mining pipeline's core: the commit
//! classification policy and heuristic, the per-repository mining state
//! machine, the static-analyzer result model, the worker-pool scheduling
//! rules (slices and quotas), and the dataset row codec. Everything that
//! touches the network, the filesystem, processes or the terminal lives
//! outside this crate and hands plain values in and out.

use vstd::prelude::*;

pub mod analyzer;
pub mod classify;
pub mod config;
pub mod dataset;
pub mod miner;
pub mod policy;
pub mod record;
pub mod scheduler;
pub mod search;
pub mod text;

use crate::policy::VulnerableCommitIdentifier;
use crate::text::{eq_ci, str_eq_ci};

verus! {

/// Whether a string names a policy tier, up to ASCII case.
pub open spec fn is_policy_name(s: Seq<char>) -> bool {
    eq_ci(s, "strong"@) || eq_ci(s, "medium"@) || eq_ci(s, "low"@)
}

/// The policy tier a string names, up to ASCII case.
pub open spec fn spec_commit_policy(s: Seq<char>) -> VulnerableCommitIdentifier {
    if eq_ci(s, "strong"@) {
        VulnerableCommitIdentifier::STRONG
    } else if eq_ci(s, "medium"@) {
        VulnerableCommitIdentifier::MEDIUM
    } else {
        VulnerableCommitIdentifier::LOW
    }
}

/// Converts a string to its respective [`VulnerableCommitIdentifier`].
/// Only the three tier names are accepted, in any ASCII case.
pub fn commit_policy(policy: &str) -> (r: VulnerableCommitIdentifier)
    requires
        is_policy_name(policy@),
    ensures
        r == spec_commit_policy(policy@),
{
    if str_eq_ci(policy, "strong") {
        VulnerableCommitIdentifier::STRONG
    } else if str_eq_ci(policy, "medium") {
        VulnerableCommitIdentifier::MEDIUM
    } else if str_eq_ci(policy, "low") {
        VulnerableCommitIdentifier::LOW
    } else {
        proof {
            assert(false);
        }
        vstd::pervasive::unreached()
    }
}

/// Verifies that the additional dependencies needed to generate vulnerable
/// code are resolved. The caller resolves the environment (whether a GitHub
/// API token is set, and whether a Flawfinder executable could be located)
/// and passes the outcome in as plain booleans.
pub fn check_dependencies(skip_flawfinder: bool, has_token: bool, flawfinder_found: bool) -> (r:
    Result<(), String>)
    ensures
        r is Ok <==> has_token && !skip_flawfinder && flawfinder_found,
        !has_token ==> (r matches Err(m) && m@
            == "You must set the GITHUB_API_TOKEN environment variable to your GitHub API personal access token."@),
        has_token && !skip_flawfinder && !flawfinder_found ==> (r matches Err(m) && m@
            == "Flawfinder is not installed. Install it with sudo apt-get install flawfinder, download it from https://dwheeler.com/flawfinder/, or set the FLAWFINDER_PATH environment variable to the path of the Flawfinder executable."@),
        has_token && skip_flawfinder ==> (r matches Err(m) && m@
            == "You must at least use one static analyzer."@),
{
    if !has_token {
        Err(String::from_str(
            "You must set the GITHUB_API_TOKEN environment variable to your GitHub API personal access token.",
        ))
    } else if !skip_flawfinder && !flawfinder_found {
        Err(String::from_str(
            "Flawfinder is not installed. Install it with sudo apt-get install flawfinder, download it from https://dwheeler.com/flawfinder/, or set the FLAWFINDER_PATH environment variable to the path of the Flawfinder executable.",
        ))
    } else if skip_flawfinder {
        Err(String::from_str("You must at least use one static analyzer."))
    } else {
        Ok(())
    }
}

} // verus!
