use witnet_governance::chain::Environment;
use witnet_governance::engine::{empty_avoid_list, TapiEngine};
use witnet_governance::forks::{FIRST_HARD_FORK, SECOND_HARD_FORK};
use witnet_governance::tapi::BitVotesCounter;

#[test]
fn test_initialize_wip_information() {
    let mut t = TapiEngine::default();

    let (epoch, old_wips) = t.initialize_wip_information(Environment::Mainnet);
    // The first block whose vote must be counted is the one from WIP0014
    let init_epoch_wip0014 = 500000;
    assert_eq!(epoch, init_epoch_wip0014);
    // The TapiEngine was just created, the list of old_wips must be empty
    assert!(old_wips.is_empty());
    // The list of active WIPs only contains the first and the second hard fork
    assert_eq!(t.wip_activation.len(), 2);
    assert_eq!(t.wip_activation.get("WIP0008"), Some(FIRST_HARD_FORK));
    assert_eq!(t.wip_activation.get("WIP0009-0011-0012"), Some(SECOND_HARD_FORK));

    // Test initialize_wip_information with a non-empty TapiEngine
    let (epoch, old_wips) = t.initialize_wip_information(Environment::Mainnet);
    // WIP0014 is already included and it won't be updated
    assert_eq!(old_wips.len(), 1);
    assert!(old_wips.contains("WIP0014"));

    // There is no new WIPs to update so we obtain the max value
    assert_eq!(epoch, u32::MAX);
}

#[test]
fn test_initialize_mainnet_and_testnet() {
    let mut t_mainnet = TapiEngine::default();
    let (_epoch, _old_wips) = t_mainnet.initialize_wip_information(Environment::Mainnet);

    let mut t_testnet = TapiEngine::default();
    let (_epoch, _old_wips) = t_testnet.initialize_wip_information(Environment::Testnet);

    // The keys of the wip_activation map should be the same
    assert_eq!(t_testnet.wip_activation.len(), t_mainnet.wip_activation.len());
    for (name, _epoch) in t_testnet.wip_activation.entries() {
        assert!(t_mainnet.wip_activation.contains_key(name));
    }
    for (name, _epoch) in t_mainnet.wip_activation.entries() {
        assert!(t_testnet.wip_activation.contains_key(name));
    }
}

#[test]
fn initialize_testnet_values() {
    let mut t = TapiEngine::default();
    let (epoch, old_wips) = t.initialize_wip_information(Environment::Testnet);
    assert_eq!(epoch, 5200);
    assert!(old_wips.is_empty());
    // Coordinated WIPs never take effect outside mainnet.
    assert_eq!(t.wip_activation.get("WIP0008"), Some(u32::MAX));
    assert_eq!(t.wip_activation.get("WIP0009-0011-0012"), Some(u32::MAX));
    let slot = t.bit_tapi_counter.info[0].clone().unwrap();
    assert_eq!(slot.period, 120);
    assert_eq!(slot.init, 5200);
    assert_eq!(slot.end, u32::MAX);
    assert_eq!(slot.bit, 0);
}

#[test]
fn initialize_clears_other_slots() {
    let mut t = TapiEngine::default();
    t.bit_tapi_counter.insert(BitVotesCounter {
        votes: 3,
        period: 100,
        wip: "stale".to_string(),
        init: 0,
        end: 1000,
        bit: 7,
    });
    assert_eq!(t.bit_tapi_counter.len(), 8);

    let (_epoch, _old_wips) = t.initialize_wip_information(Environment::Mainnet);
    assert_eq!(t.bit_tapi_counter.len(), 1);
    assert!(t.bit_tapi_counter.info[7].is_none());
    assert!(t.bit_tapi_counter.contains(0, "WIP0014"));
}

#[test]
fn in_voting_range_scans_windows() {
    let empty_hs = empty_avoid_list();
    let mut t = TapiEngine::default();
    t.bit_tapi_counter.insert(BitVotesCounter {
        votes: 0,
        period: 100,
        wip: "test0".to_string(),
        init: 10_000,
        end: 20_000,
        bit: 0,
    });
    // Make the table aware of the proposal without voting.
    t.update_bit_counter(0, 9_000, 9_000, &empty_hs);

    assert!(!t.in_voting_range(9_999, "test0"));
    assert!(t.in_voting_range(10_000, "test0"));
    assert!(t.in_voting_range(19_999, "test0"));
    assert!(!t.in_voting_range(20_000, "test0"));
    assert!(!t.in_voting_range(10_000, "other"));
}
