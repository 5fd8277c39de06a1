use std::collections::HashSet;

use witnet_governance::chain::PublicKeyHash;
use witnet_governance::sampler::{sample, SamplingError};
use witnet_governance::threshold::meets_supermajority;

fn population(n: usize) -> Vec<PublicKeyHash> {
    (0..n)
        .map(|i| PublicKeyHash::from_address(format!("member{}", i)))
        .collect()
}

#[test]
fn sample_returns_exactly_size_distinct_members() {
    let pop = population(200);
    for &size in &[0usize, 1, 7, 50, 200] {
        let committee = sample(&pop, size, b"some seed").unwrap();
        assert_eq!(committee.len(), size);
        let distinct: HashSet<&str> = committee.iter().map(|m| m.address.as_str()).collect();
        assert_eq!(distinct.len(), size);
        for member in &committee {
            assert!(pop.contains(member));
        }
    }
}

#[test]
fn sample_is_deterministic() {
    let pop = population(300);
    let first = sample(&pop, 40, b"deterministic seed").unwrap();
    let second = sample(&pop, 40, b"deterministic seed").unwrap();
    assert_eq!(first, second);

    // A different seed almost surely draws a different committee.
    let third = sample(&pop, 40, b"another seed").unwrap();
    assert_ne!(first, third);
}

#[test]
fn sample_fails_on_insufficient_population() {
    let pop = population(10);
    assert_eq!(
        sample(&pop, 11, b"seed"),
        Err(SamplingError::InsufficientPopulation)
    );
    // The boundary itself still succeeds.
    assert!(sample(&pop, 10, b"seed").is_ok());
}

/// Test-local generator used only to pick which identities stay offline.
fn scramble(z0: u64) -> u64 {
    let z1 = (z0 ^ (z0 >> 30)).wrapping_mul(0xBF58476D1CE4E5B9);
    let z2 = (z1 ^ (z1 >> 27)).wrapping_mul(0x94D049BB133111EB);
    z2 ^ (z2 >> 31)
}

#[test]
fn consensus_rounds_under_non_participation_stay_in_band() {
    let pop = population(1000);
    let committee_size = 50u32;
    let max_rounds = 1500u32;
    let seeds = 20u64;

    let mut total_rounds: u64 = 0;
    for run in 0..seeds {
        // A simulated 35% of the population does not vote, fixed per run.
        let offline: HashSet<usize> = (0..pop.len())
            .filter(|&i| scramble(run.wrapping_mul(1_000_003).wrapping_add(i as u64)) % 100 < 35)
            .collect();

        let mut rounds = max_rounds;
        for round in 0..max_rounds {
            let mut seed = run.to_be_bytes().to_vec();
            seed.extend_from_slice(&round.to_be_bytes());
            let committee = sample(&pop, committee_size as usize, &seed).unwrap();
            let votes = committee
                .iter()
                .filter(|m| {
                    let index: usize = m.address["member".len()..].parse().unwrap();
                    !offline.contains(&index)
                })
                .count() as u32;
            if meets_supermajority(votes, committee_size) {
                rounds = round + 1;
                break;
            }
        }
        assert!(rounds < max_rounds, "no consensus within the round cap");
        total_rounds += rounds as u64;
    }

    // With 65% participation, a committee of 50 reaches the two-thirds
    // threshold (34 votes) in a few rounds on average; a mean far outside
    // this band would mean the sampler is structurally biased.
    let mean = total_rounds as f64 / seeds as f64;
    assert!(mean >= 1.0 && mean <= 8.0, "mean rounds out of band: {}", mean);
}

#[test]
fn sample_from_empty_population() {
    let pop: Vec<PublicKeyHash> = Vec::new();
    assert_eq!(sample(&pop, 0, b"seed").unwrap(), Vec::new());
    assert_eq!(sample(&pop, 1, b"seed"), Err(SamplingError::InsufficientPopulation));
}
