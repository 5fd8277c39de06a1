use vstd::prelude::*;

verus! {

/// True iff `votes` out of a committee of `committee_size` members reach a
/// two-thirds supermajority: `votes * 3 >= committee_size * 2`, in exact
/// integer arithmetic.
pub open spec fn spec_meets_supermajority(votes: u32, committee_size: u32) -> bool {
    3 * votes >= 2 * committee_size
}

/// Decides whether a committee tally reached a two-thirds supermajority.
///
/// Callers must never ask about an empty committee: a committee is only
/// formed with at least one member, and `votes * 3 >= 0 * 2` would hold
/// vacuously for any tally.
pub fn meets_supermajority(votes: u32, committee_size: u32) -> (reached: bool)
    requires
        committee_size >= 1,
    ensures
        reached == spec_meets_supermajority(votes, committee_size),
{
    (votes as u64) * 3 >= (committee_size as u64) * 2
}

/// For a fixed committee size, gathering more votes never loses a
/// supermajority that fewer votes already reached.
pub proof fn lemma_meets_supermajority_monotonic(v1: u32, v2: u32, committee_size: u32)
    requires
        v1 <= v2,
    ensures
        spec_meets_supermajority(v1, committee_size) ==> spec_meets_supermajority(
            v2,
            committee_size,
        ),
{
}

} // verus!
