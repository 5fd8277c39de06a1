use witnet_governance::chain::{Environment, PublicKeyHash};
use witnet_governance::emergency::in_emergency_period;
use witnet_governance::threshold::meets_supermajority;

fn expected_emergency_committee() -> Vec<PublicKeyHash> {
    [
        "wit1asdpcspwysf0hg5kgwvgsp2h6g65y5kg9gj5dz",
        "wit13l337znc5yuualnxfg9s2hu9txylntq5pyazty",
        "wit17nnjuxmfuu92l6rxhque2qc3u2kvmx2fske4l9",
        "wit1drcpu0xc2akfcqn8r69vw70pj8fzjhjypdcfsq",
        "wit1cyrlc64hyu0rux7hclmg9rxwxpa0v9pevyaj2c",
        "wit1g0rkajsgwqux9rnmkfca5tz6djg0f87x7ms5qx",
        "wit1etherz02v4fvqty6jhdawefd0pl33qtevy7s4z",
    ]
    .iter()
    .map(|address| PublicKeyHash::from_address(address.to_string()))
    .collect()
}

#[test]
fn test_in_emergency_period_not_mainnet() {
    assert_eq!(in_emergency_period(1300, Environment::Testnet), None)
}

#[test]
fn test_in_emergency_period_not_inside_period() {
    assert_eq!(in_emergency_period(50, Environment::Mainnet), None)
}

#[test]
fn test_in_emergency_period_inside_first_emergency_period() {
    assert_eq!(
        in_emergency_period(800, Environment::Mainnet),
        Some(expected_emergency_committee())
    )
}

#[test]
fn emergency_period_boundaries_are_strict() {
    assert_eq!(in_emergency_period(750, Environment::Mainnet), None);
    assert!(in_emergency_period(751, Environment::Mainnet).is_some());
    assert!(in_emergency_period(1343, Environment::Mainnet).is_some());
    assert_eq!(in_emergency_period(1344, Environment::Mainnet), None);
    assert_eq!(in_emergency_period(800, Environment::Development), None);
}

#[test]
fn supermajority_boundary_cases() {
    // votes * 3 >= committee_size * 2, in exact integer arithmetic: for a
    // committee of 50 the boundary is 34 votes (102 >= 100; 99 < 100).
    assert!(meets_supermajority(34, 50));
    assert!(!meets_supermajority(33, 50));
    assert!(!meets_supermajority(32, 50));
    assert!(meets_supermajority(2, 3));
    assert!(!meets_supermajority(1, 3));
    assert!(meets_supermajority(1, 1));
    assert!(!meets_supermajority(0, 1));
    assert!(meets_supermajority(u32::MAX, u32::MAX));
}

#[test]
fn supermajority_monotonic_in_votes() {
    for committee_size in 1..60u32 {
        let mut reached = false;
        for votes in 0..=committee_size {
            let now = meets_supermajority(votes, committee_size);
            // Once reached, more votes never lose the supermajority.
            assert!(!reached || now);
            reached = now;
        }
        assert!(reached);
    }
}
