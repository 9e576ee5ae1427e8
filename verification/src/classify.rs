//! Classification of commits as security-relevant.
//!
//! A commit is classified by a keyword heuristic against its message. The
//! heuristic's strictness widens monotonically from `STRONG` to `LOW`: every
//! tier's keyword list extends the stricter tier's list, so a commit passing
//! a stricter tier passes every looser one.

use vstd::prelude::*;
use vstd::string::StrSliceExecFns;

use crate::policy::VulnerableCommitIdentifier;
use crate::text::{contains_ci, str_contains_ci};

verus! {

/// A commit's metadata: its hash, its message, and the files it touches,
/// as a repository walk hands them over, newest first. A message that could
/// not be decoded is handed over empty, and an empty message never classifies
/// as security-relevant.
pub struct CommitRecord {
    pub hash: String,
    pub message: String,
    pub files: Vec<String>,
}

/// Keywords of the strictest tier: explicit weakness-report identifiers.
pub open spec fn strong_keywords() -> Seq<Seq<char>> {
    seq!["cve-"@, "cwe-"@]
}

/// Keywords of the medium tier: the strong tier's list extended with
/// explicit security-fix terminology.
pub open spec fn medium_keywords() -> Seq<Seq<char>> {
    strong_keywords() + seq!["vulnerability"@, "security fix"@, "buffer overflow"@]
}

/// Keywords of the loosest tier: the medium tier's list extended with
/// generic security terminology.
pub open spec fn low_keywords() -> Seq<Seq<char>> {
    medium_keywords() + seq!["security"@, "overflow"@, "exploit"@, "use after free"@, "injection"@]
}

/// The keyword list of a tier.
pub open spec fn tier_keywords(policy: VulnerableCommitIdentifier) -> Seq<Seq<char>> {
    match policy {
        VulnerableCommitIdentifier::STRONG => strong_keywords(),
        VulnerableCommitIdentifier::MEDIUM => medium_keywords(),
        VulnerableCommitIdentifier::LOW => low_keywords(),
    }
}

/// A message is security-relevant under a tier when it is not empty and
/// contains one of the tier's keywords, up to ASCII case.
pub open spec fn spec_classify(message: Seq<char>, policy: VulnerableCommitIdentifier) -> bool {
    message.len() > 0 && exists|ki: int|
        0 <= ki < tier_keywords(policy).len() && #[trigger] contains_ci(
            message,
            tier_keywords(policy)[ki],
        )
}

/// The executable keyword list of a tier.
fn tier_keyword_list(policy: VulnerableCommitIdentifier) -> (r: Vec<&'static str>)
    ensures
        r@.len() == tier_keywords(policy).len(),
        forall|ki: int| 0 <= ki < r@.len() ==> r@[ki]@ == tier_keywords(policy)[ki],
{
    match policy {
        VulnerableCommitIdentifier::STRONG => {
            let r = vec!["cve-", "cwe-"];
            assert(r@[0]@ == tier_keywords(policy)[0]);
            assert(r@[1]@ == tier_keywords(policy)[1]);
            r
        },
        VulnerableCommitIdentifier::MEDIUM => {
            let r = vec!["cve-", "cwe-", "vulnerability", "security fix", "buffer overflow"];
            assert(r@[0]@ == tier_keywords(policy)[0]);
            assert(r@[1]@ == tier_keywords(policy)[1]);
            assert(r@[2]@ == tier_keywords(policy)[2]);
            assert(r@[3]@ == tier_keywords(policy)[3]);
            assert(r@[4]@ == tier_keywords(policy)[4]);
            r
        },
        VulnerableCommitIdentifier::LOW => {
            let r = vec![
                "cve-",
                "cwe-",
                "vulnerability",
                "security fix",
                "buffer overflow",
                "security",
                "overflow",
                "exploit",
                "use after free",
                "injection",
            ];
            assert(r@[0]@ == tier_keywords(policy)[0]);
            assert(r@[1]@ == tier_keywords(policy)[1]);
            assert(r@[2]@ == tier_keywords(policy)[2]);
            assert(r@[3]@ == tier_keywords(policy)[3]);
            assert(r@[4]@ == tier_keywords(policy)[4]);
            assert(r@[5]@ == tier_keywords(policy)[5]);
            assert(r@[6]@ == tier_keywords(policy)[6]);
            assert(r@[7]@ == tier_keywords(policy)[7]);
            assert(r@[8]@ == tier_keywords(policy)[8]);
            assert(r@[9]@ == tier_keywords(policy)[9]);
            r
        },
    }
}

/// Decides whether a commit is security-relevant under the given policy
/// tier. Pure function of its inputs; safe to call concurrently from any
/// number of workers.
pub fn classify(commit: &CommitRecord, policy: VulnerableCommitIdentifier) -> (r: bool)
    ensures
        r == spec_classify(commit.message@, policy),
{
    if commit.message.as_str().unicode_len() == 0 {
        return false;
    }
    let kws = tier_keyword_list(policy);
    let mut ki: usize = 0;
    while ki < kws.len()
        invariant
            kws@.len() == tier_keywords(policy).len(),
            forall|k: int| 0 <= k < kws@.len() ==> kws@[k]@ == tier_keywords(policy)[k],
            ki <= kws@.len(),
            commit.message@.len() > 0,
            forall|k: int|
                0 <= k < ki ==> !#[trigger] contains_ci(commit.message@, tier_keywords(policy)[k]),
        decreases kws@.len() - ki,
    {
        if str_contains_ci(commit.message.as_str(), kws[ki]) {
            proof {
                assert(0 <= ki < tier_keywords(policy).len() && contains_ci(
                    commit.message@,
                    tier_keywords(policy)[ki as int],
                ));
            }
            return true;
        }
        ki += 1;
    }
    false
}

/// Classification monotonicity: a message that classifies as
/// security-relevant under a tier also classifies under every looser tier.
pub proof fn lemma_classify_monotone(message: Seq<char>)
    ensures
        spec_classify(message, VulnerableCommitIdentifier::STRONG) ==> spec_classify(
            message,
            VulnerableCommitIdentifier::MEDIUM,
        ),
        spec_classify(message, VulnerableCommitIdentifier::MEDIUM) ==> spec_classify(
            message,
            VulnerableCommitIdentifier::LOW,
        ),
        spec_classify(message, VulnerableCommitIdentifier::STRONG) ==> spec_classify(
            message,
            VulnerableCommitIdentifier::LOW,
        ),
{
    let strong = VulnerableCommitIdentifier::STRONG;
    let medium = VulnerableCommitIdentifier::MEDIUM;
    let low = VulnerableCommitIdentifier::LOW;
    if spec_classify(message, strong) {
        let ki = choose|ki: int|
            0 <= ki < tier_keywords(strong).len() && #[trigger] contains_ci(
                message,
                tier_keywords(strong)[ki],
            );
        assert(tier_keywords(medium)[ki] == tier_keywords(strong)[ki]);
        assert(0 <= ki < tier_keywords(medium).len() && contains_ci(
            message,
            tier_keywords(medium)[ki],
        ));
        assert(spec_classify(message, medium));
    }
    if spec_classify(message, medium) {
        let ki = choose|ki: int|
            0 <= ki < tier_keywords(medium).len() && #[trigger] contains_ci(
                message,
                tier_keywords(medium)[ki],
            );
        assert(tier_keywords(low)[ki] == tier_keywords(medium)[ki]);
        assert(0 <= ki < tier_keywords(low).len() && contains_ci(message, tier_keywords(low)[ki]));
        assert(spec_classify(message, low));
    }
}

/// An empty message never classifies as security-relevant, at any tier.
pub proof fn lemma_empty_message_never_relevant(policy: VulnerableCommitIdentifier)
    ensures
        !spec_classify(Seq::<char>::empty(), policy),
{
}

} // verus!
