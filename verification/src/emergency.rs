use vstd::prelude::*;

use crate::chain::{Environment, Epoch, PublicKeyHash};

verus! {

/// Addresses of the fixed committee of 7 nodes that signed superblocks
/// during the emergency period, in their hardcoded order.
pub open spec fn emergency_committee_addresses() -> Seq<Seq<char>> {
    seq![
        "wit1asdpcspwysf0hg5kgwvgsp2h6g65y5kg9gj5dz"@,
        "wit13l337znc5yuualnxfg9s2hu9txylntq5pyazty"@,
        "wit17nnjuxmfuu92l6rxhque2qc3u2kvmx2fske4l9"@,
        "wit1drcpu0xc2akfcqn8r69vw70pj8fzjhjypdcfsq"@,
        "wit1cyrlc64hyu0rux7hclmg9rxwxpa0v9pevyaj2c"@,
        "wit1g0rkajsgwqux9rnmkfca5tz6djg0f87x7ms5qx"@,
        "wit1etherz02v4fvqty6jhdawefd0pl33qtevy7s4z"@,
    ]
}

/// True iff a superblock at `superblock_index` on `environment` falls in the
/// emergency period: on the primary network, strictly between indices 750
/// and 1344.
pub open spec fn spec_in_emergency_period(superblock_index: Epoch, environment: Environment) -> bool {
    environment == Environment::Mainnet && 750 < superblock_index < 1344
}

/// Builds the hardcoded emergency signing committee.
fn emergency_committee() -> (committee: Vec<PublicKeyHash>)
    ensures
        committee@.len() == emergency_committee_addresses().len(),
        forall|i: int|
            0 <= i < committee@.len() ==> committee@[i]@ == emergency_committee_addresses()[i],
{
    let mut committee: Vec<PublicKeyHash> = Vec::new();
    committee.push(PublicKeyHash::from_address("wit1asdpcspwysf0hg5kgwvgsp2h6g65y5kg9gj5dz".to_owned()));
    committee.push(PublicKeyHash::from_address("wit13l337znc5yuualnxfg9s2hu9txylntq5pyazty".to_owned()));
    committee.push(PublicKeyHash::from_address("wit17nnjuxmfuu92l6rxhque2qc3u2kvmx2fske4l9".to_owned()));
    committee.push(PublicKeyHash::from_address("wit1drcpu0xc2akfcqn8r69vw70pj8fzjhjypdcfsq".to_owned()));
    committee.push(PublicKeyHash::from_address("wit1cyrlc64hyu0rux7hclmg9rxwxpa0v9pevyaj2c".to_owned()));
    committee.push(PublicKeyHash::from_address("wit1g0rkajsgwqux9rnmkfca5tz6djg0f87x7ms5qx".to_owned()));
    committee.push(PublicKeyHash::from_address("wit1etherz02v4fvqty6jhdawefd0pl33qtevy7s4z".to_owned()));
    committee
}

/// Returns the hardcoded signing committee if the provided superblock index
/// belongs to the emergency period, and `None` otherwise, in which case the
/// caller falls back to seeded committee sampling.
pub fn in_emergency_period(superblock_index: Epoch, environment: Environment) -> (committee: Option<
    Vec<PublicKeyHash>,
>)
    ensures
        committee is Some <==> spec_in_emergency_period(superblock_index, environment),
        committee matches Some(c) ==> {
            &&& c@.len() == emergency_committee_addresses().len()
            &&& forall|i: int| 0 <= i < c@.len() ==> c@[i]@ == emergency_committee_addresses()[i]
        },
{
    if environment == Environment::Mainnet && superblock_index > 750 && superblock_index < 1344 {
        Some(emergency_committee())
    } else {
        None
    }
}

} // verus!
