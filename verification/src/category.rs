use vstd::prelude::*;

verus! {

/// The severity of an API change under semantic versioning, in ascending
/// order of impact.
///
/// `Patch` is the identity of the lattice: the state of an aggregation
/// before any change has been recorded. A "technically breaking" change is
/// one that the semver rules treat as breaking in general even though it is
/// very unlikely to cause breakage in practice (such as a pure addition).
#[derive(Clone, Copy, Debug, PartialEq, Eq, Structural, PartialOrd, Ord)]
pub enum ChangeCategory {
    /// No change to the public API.
    Patch,
    /// A backwards-compatible change.
    NonBreaking,
    /// A breaking change that is very unlikely to cause breakage.
    TechnicallyBreaking,
    /// A breaking, backwards-incompatible change.
    Breaking,
}

impl ChangeCategory {
    /// Position in the ascending severity order.
    pub open spec fn rank(self) -> int {
        match self {
            ChangeCategory::Patch => 0,
            ChangeCategory::NonBreaking => 1,
            ChangeCategory::TechnicallyBreaking => 2,
            ChangeCategory::Breaking => 3,
        }
    }

    /// The lattice join: the worse of two severities. Keeps the left
    /// operand on a tie, which by `lemma_rank_injective` is the only
    /// operand there is.
    pub open spec fn join(self, other: ChangeCategory) -> ChangeCategory {
        if self.rank() >= other.rank() {
            self
        } else {
            other
        }
    }

    /// Executable strict severity comparison, agreeing with `rank`.
    pub fn is_more_severe_than(&self, other: &ChangeCategory) -> (r: bool)
        ensures
            r == (self.rank() > other.rank()),
    {
        self.rank_index() > other.rank_index()
    }

    fn rank_index(&self) -> (r: u8)
        ensures
            r as int == self.rank(),
    {
        match self {
            ChangeCategory::Patch => 0,
            ChangeCategory::NonBreaking => 1,
            ChangeCategory::TechnicallyBreaking => 2,
            ChangeCategory::Breaking => 3,
        }
    }
}

/// Two severities with the same rank are the same severity: `rank` embeds
/// the category into the integers, so the order on ranks is a total order
/// on categories.
pub proof fn lemma_rank_injective(a: ChangeCategory, b: ChangeCategory)
    ensures
        a.rank() == b.rank() ==> a == b,
{
}

impl Default for ChangeCategory {
    /// An empty aggregation has no compatibility impact.
    fn default() -> (r: ChangeCategory)
        ensures
            r == ChangeCategory::Patch,
    {
        ChangeCategory::Patch
    }
}

} // verus!
