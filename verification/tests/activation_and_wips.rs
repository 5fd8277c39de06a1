use witnet_governance::activation::{ActivationMap, ActiveWips};
use witnet_governance::chain::Environment;
use witnet_governance::tapi::{BitTapiCounter, BitVotesCounter};
use witnet_governance::forks::{
    after_first_hard_fork, after_second_hard_fork, FIRST_HARD_FORK, SECOND_HARD_FORK,
};

#[test]
fn activation_map_insert_and_get() {
    let mut map = ActivationMap::new();
    assert!(map.is_empty());
    assert_eq!(map.get("WIP0008"), None);
    assert!(!map.contains_key("WIP0008"));

    map.insert("WIP0008".to_string(), 192000);
    assert!(map.contains_key("WIP0008"));
    assert_eq!(map.get("WIP0008"), Some(192000));
    assert_eq!(map.len(), 1);

    // A second insert under the same name keeps a single entry.
    map.insert("WIP0008".to_string(), 500);
    assert_eq!(map.len(), 1);
    assert_eq!(map.get("WIP0008"), Some(500));

    map.insert("WIP0014".to_string(), 550000);
    assert_eq!(map.len(), 2);
    let entries = map.entries();
    assert_eq!(entries.len(), 2);
    assert!(entries.iter().any(|(name, epoch)| name == "WIP0008" && *epoch == 500));
    assert!(entries.iter().any(|(name, epoch)| name == "WIP0014" && *epoch == 550000));
}

fn snapshot(block_epoch: u32) -> ActiveWips {
    let mut active_wips = ActivationMap::new();
    active_wips.insert("WIP0008".to_string(), FIRST_HARD_FORK);
    active_wips.insert("WIP0009-0011-0012".to_string(), SECOND_HARD_FORK);
    active_wips.insert("WIP0014".to_string(), 550000);
    ActiveWips { active_wips, block_epoch }
}

#[test]
fn active_wips_queries_follow_block_epoch() {
    let early = snapshot(0);
    assert!(!early.wip_0008());
    assert!(!early.wips_0009_0011_0012());
    assert!(!early.wip0014());

    let between = snapshot(FIRST_HARD_FORK);
    assert!(between.wip_0008());
    assert!(!between.wips_0009_0011_0012());

    let late = snapshot(600000);
    assert!(late.wip_0008());
    assert!(late.wips_0009_0011_0012());
    assert!(late.wip0014());

    // A WIP with no activation entry is never active.
    let none = ActiveWips { active_wips: ActivationMap::new(), block_epoch: u32::MAX };
    assert!(!none.wip_0008());
    assert!(!none.wips_0009_0011_0012());
    assert!(!none.wip0014());
}

#[test]
fn hard_fork_gates_only_apply_on_mainnet() {
    assert!(!after_first_hard_fork(FIRST_HARD_FORK - 1, Environment::Mainnet));
    assert!(after_first_hard_fork(FIRST_HARD_FORK, Environment::Mainnet));
    assert!(after_first_hard_fork(u32::MAX, Environment::Mainnet));
    assert!(!after_first_hard_fork(u32::MAX, Environment::Testnet));
    assert!(!after_first_hard_fork(u32::MAX, Environment::Development));

    assert!(!after_second_hard_fork(SECOND_HARD_FORK - 1, Environment::Mainnet));
    assert!(after_second_hard_fork(SECOND_HARD_FORK, Environment::Mainnet));
    assert!(!after_second_hard_fork(u32::MAX, Environment::Testnet));
}

#[test]
fn info_lists_only_proposals_still_voting() {
    let mut counter = BitTapiCounter::default();
    counter.insert(BitVotesCounter {
        votes: 5,
        period: 100,
        wip: "voting".to_string(),
        init: 0,
        end: 1000,
        bit: 0,
    });
    counter.insert(BitVotesCounter {
        votes: 80,
        period: 100,
        wip: "done".to_string(),
        init: 0,
        end: 1000,
        bit: 3,
    });

    let mut activated = ActivationMap::new();
    activated.insert("done".to_string(), 500);

    let listing = counter.info(&activated);
    assert_eq!(listing.len(), 1);
    assert_eq!(listing[0].wip, "voting");
    assert_eq!(listing[0].votes, 5);

    let nothing_active = ActivationMap::new();
    let listing = counter.info(&nothing_active);
    assert_eq!(listing.len(), 2);
    assert_eq!(listing[0].wip, "voting");
    assert_eq!(listing[1].wip, "done");
}
