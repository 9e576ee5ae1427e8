//! The strictness policy under which a commit is labeled security-relevant.

use vstd::prelude::*;

verus! {

/// Strictness tier of the heuristic that labels a commit as
/// security-relevant. Tiers are ordered by decreasing strictness
/// (increasing recall, decreasing precision): a commit passing `STRONG`
/// also passes `MEDIUM` and `LOW`; `LOW` accepts the superset.
#[derive(Copy, Clone, PartialEq, Eq, Structural, Debug)]
pub enum VulnerableCommitIdentifier {
    STRONG,
    MEDIUM,
    LOW,
}

impl VulnerableCommitIdentifier {
    /// Explicit integer rank of the tier, lowest for the strictest tier,
    /// so that the ordering does not rest on declaration order.
    pub open spec fn spec_rank(self) -> int {
        match self {
            VulnerableCommitIdentifier::STRONG => 0,
            VulnerableCommitIdentifier::MEDIUM => 1,
            VulnerableCommitIdentifier::LOW => 2,
        }
    }

    /// Executable rank of the tier.
    pub fn rank(self) -> (r: u8)
        ensures
            r as int == self.spec_rank(),
    {
        match self {
            VulnerableCommitIdentifier::STRONG => 0,
            VulnerableCommitIdentifier::MEDIUM => 1,
            VulnerableCommitIdentifier::LOW => 2,
        }
    }

    /// The lower-case name of the tier.
    pub fn name(self) -> (r: String)
        ensures
            r@ == self.spec_name(),
    {
        match self {
            VulnerableCommitIdentifier::STRONG => String::from_str("strong"),
            VulnerableCommitIdentifier::MEDIUM => String::from_str("medium"),
            VulnerableCommitIdentifier::LOW => String::from_str("low"),
        }
    }

    /// The lower-case name of the tier, as a sequence of characters.
    pub open spec fn spec_name(self) -> Seq<char> {
        match self {
            VulnerableCommitIdentifier::STRONG => "strong"@,
            VulnerableCommitIdentifier::MEDIUM => "medium"@,
            VulnerableCommitIdentifier::LOW => "low"@,
        }
    }
}

impl Default for VulnerableCommitIdentifier {
    /// The default policy is the strictest tier.
    fn default() -> (r: Self)
        ensures
            r == VulnerableCommitIdentifier::STRONG,
    {
        VulnerableCommitIdentifier::STRONG
    }
}

} // verus!
