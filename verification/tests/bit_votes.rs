use witnet_governance::engine::is_bit_n_activated;
use witnet_governance::tapi::{BitTapiCounter, BitVotesCounter};

#[test]
fn test_is_bit_n_activated() {
    let aux = 1;
    assert!(is_bit_n_activated(aux, 0));
    assert!(!is_bit_n_activated(aux, 1));

    let aux = 2;
    assert!(!is_bit_n_activated(aux, 0));
    assert!(is_bit_n_activated(aux, 1));

    let aux = 3;
    assert!(is_bit_n_activated(aux, 0));
    assert!(is_bit_n_activated(aux, 1));
}

#[test]
fn test_bit_tapi_counter() {
    let mut tapi_counter = BitTapiCounter::default();
    assert!(tapi_counter.is_empty());

    let mut aux = BitVotesCounter::default();
    aux.init = 0;
    aux.end = 50;
    aux.wip = "Wip1".to_string();
    aux.bit = 0;
    tapi_counter.insert(aux);
    assert!(!tapi_counter.is_empty());
    assert!(tapi_counter.get(0, &100).is_none());
    assert!(tapi_counter.contains(0, &"Wip1".to_string()));
    assert!(!tapi_counter.contains(1, &"Wip1".to_string()));
    assert_eq!(tapi_counter.current_length, 1);

    let mut aux2 = BitVotesCounter::default();
    aux2.init = 75;
    aux2.end = 125;
    aux2.wip = "Wip2".to_string();
    aux2.bit = 0;
    tapi_counter.insert(aux2);
    assert_eq!(tapi_counter.get(0, &100).unwrap().wip, "Wip2".to_string());
    assert!(tapi_counter.get(1, &100).is_none());
    assert!(tapi_counter.contains(0, &"Wip2".to_string()));
    assert_eq!(tapi_counter.current_length, 1);

    assert_eq!(tapi_counter.get(0, &100).unwrap().votes, 0);
    let votes_counter = tapi_counter.get_mut(0, &100).unwrap();
    votes_counter.votes += 1;
    assert_eq!(tapi_counter.get(0, &100).unwrap().votes, 1);

    tapi_counter.remove(0);
    assert_eq!(tapi_counter.current_length, 0);
}

#[test]
fn test_bit_tapi_counter_invalid_bit() {
    let mut tapi_counter = BitTapiCounter::default();
    assert!(tapi_counter.is_empty());

    let mut aux = BitVotesCounter::default();
    aux.init = 0;
    aux.end = 50;
    aux.wip = "Wip1".to_string();
    aux.bit = 32;
    tapi_counter.insert(aux);
    assert!(tapi_counter.is_empty());

    let mut aux = BitVotesCounter::default();
    aux.init = 0;
    aux.end = 50;
    aux.wip = "Wip1".to_string();
    aux.bit = 0;
    tapi_counter.insert(aux);
    assert_eq!(tapi_counter.current_length, 1);

    tapi_counter.remove(32);
    assert_eq!(tapi_counter.current_length, 1);
}

fn proposal(wip: &str, bit: usize) -> BitVotesCounter {
    BitVotesCounter {
        votes: 0,
        period: 100,
        wip: wip.to_string(),
        init: 0,
        end: 1000,
        bit,
    }
}

#[test]
fn unregistering_only_occupied_bit_resets_span() {
    let mut counter = BitTapiCounter::default();
    counter.insert(proposal("only", 4));
    assert_eq!(counter.len(), 5);
    counter.remove(4);
    assert_eq!(counter.len(), 0);
    assert!(counter.is_empty());
    assert_eq!(counter.last_epoch(), 0);
}

#[test]
fn reregistering_after_removal_recomputes_span() {
    let mut counter = BitTapiCounter::default();
    counter.insert(proposal("low", 2));
    counter.insert(proposal("high", 5));
    assert_eq!(counter.len(), 6);

    // Removing an inner bit keeps the span at the highest occupied bit.
    counter.remove(2);
    assert_eq!(counter.len(), 6);

    // Removing the highest bit rescans down to the next occupied one.
    counter.insert(proposal("low", 2));
    counter.remove(5);
    assert_eq!(counter.len(), 3);

    // Re-registering recomputes the span upward again.
    counter.insert(proposal("high", 5));
    assert_eq!(counter.len(), 6);
}
