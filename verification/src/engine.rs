use vstd::prelude::*;

use vstd::hash_set::StringHashSet;

use crate::activation::ActivationMap;
use crate::chain::{Environment, Epoch};
use crate::forks::{FIRST_HARD_FORK, SECOND_HARD_FORK};
use crate::tapi::{
    spec_active_at, spec_slot_named, BitTapiCounter, BitVotesCounter, BIT_TABLE_SIZE,
};

verus! {

/// An empty suppression list: no WIP is kept from vote counting. Callers
/// that cannot build a `StringHashSet` themselves start from this one.
pub fn empty_avoid_list() -> (list: StringHashSet)
    ensures
        list@ == Set::<Seq<char>>::empty(),
{
    StringHashSet::new()
}

/// Whether bit `n` of the version bitmap `v` is set.
pub open spec fn spec_bit_set(v: u32, n: int) -> bool {
    v & (1u32 << (n as u32)) != 0
}

/// Whether bit `n` of the version bitmap `v` is set: a block whose producer
/// votes yes on the WIP assigned to bit `n` sets that bit.
pub fn is_bit_n_activated(v: u32, n: usize) -> (set: bool)
    requires
        n < 32,
    ensures
        set == spec_bit_set(v, n as int),
{
    v & (1u32 << (n as u32)) != 0
}

/// One more vote, capped at the largest representable tally.
pub open spec fn spec_saturating_inc(x: u32) -> u32 {
    if x < u32::MAX {
        (x + 1) as u32
    } else {
        x
    }
}

/// Counting result of one proposal at one epoch: the updated proposal and
/// activation map.
///
/// If the vote bit is set the tally grows by one; when the epoch sits on a
/// period boundary of the proposal, the period's tally is compared against
/// the 80% threshold — activating the WIP 21 epochs after `block_epoch` if
/// reached — and then reset to zero either way.
pub open spec fn spec_count_vote(
    c: BitVotesCounter,
    act: Map<Seq<char>, Epoch>,
    v: u32,
    epoch: Epoch,
    block_epoch: Epoch,
    bit: int,
) -> (BitVotesCounter, Map<Seq<char>, Epoch>) {
    let votes1 = if spec_bit_set(v, bit) {
        spec_saturating_inc(c.votes)
    } else {
        c.votes
    };
    let boundary = (epoch - c.init) % (c.period as int) == 0;
    let act1 = if boundary && votes1 * 100 / (c.period as int) >= 80 {
        act.insert(c.wip@, (block_epoch + 21) as u32)
    } else {
        act
    };
    let votes2 = if boundary {
        0u32
    } else {
        votes1
    };
    (
        BitVotesCounter {
            votes: votes2,
            period: c.period,
            wip: c.wip,
            init: c.init,
            end: c.end,
            bit: c.bit,
        },
        act1,
    )
}

/// Processing of bit `bit` at one epoch. Nothing happens unless the slot is
/// occupied, the epoch lies in the proposal's voting window, and the WIP is
/// neither already activated nor suppressed.
pub open spec fn spec_process_bit(
    slots: Seq<Option<BitVotesCounter>>,
    act: Map<Seq<char>, Epoch>,
    v: u32,
    epoch: Epoch,
    block_epoch: Epoch,
    avoid: Set<Seq<char>>,
    bit: int,
) -> (Seq<Option<BitVotesCounter>>, Map<Seq<char>, Epoch>) {
    match spec_active_at(slots, bit, epoch) {
        Some(c) => if !act.contains_key(c.wip@) && !avoid.contains(c.wip@) {
            let counted = spec_count_vote(c, act, v, epoch, block_epoch, bit);
            (slots.update(bit, Some(counted.0)), counted.1)
        } else {
            (slots, act)
        },
        None => (slots, act),
    }
}

/// Processing of bits `0 .. n` in increasing order at one epoch.
pub open spec fn spec_process_bits(
    slots: Seq<Option<BitVotesCounter>>,
    act: Map<Seq<char>, Epoch>,
    v: u32,
    epoch: Epoch,
    block_epoch: Epoch,
    avoid: Set<Seq<char>>,
    n: nat,
) -> (Seq<Option<BitVotesCounter>>, Map<Seq<char>, Epoch>)
    decreases n,
{
    if n == 0 {
        (slots, act)
    } else {
        let prior = spec_process_bits(slots, act, v, epoch, block_epoch, avoid, (n - 1) as nat);
        spec_process_bit(prior.0, prior.1, v, epoch, block_epoch, avoid, n - 1)
    }
}

/// Zero-vote backfill of the skipped epochs `lo .. hi`, in increasing
/// order, over a table whose occupied span is `span`.
pub open spec fn spec_backfill(
    slots: Seq<Option<BitVotesCounter>>,
    act: Map<Seq<char>, Epoch>,
    span: nat,
    lo: int,
    hi: int,
    block_epoch: Epoch,
    avoid: Set<Seq<char>>,
) -> (Seq<Option<BitVotesCounter>>, Map<Seq<char>, Epoch>)
    decreases hi - lo,
{
    if lo >= hi {
        (slots, act)
    } else {
        let first = spec_process_bits(slots, act, 0, lo as u32, block_epoch, avoid, span);
        spec_backfill(first.0, first.1, span, lo + 1, hi, block_epoch, avoid)
    }
}

/// Full effect of one `update_bit_counter` call on the slots and the
/// activation map: when a prior epoch was processed (`last != 0`) and a gap
/// precedes `epoch`, every skipped epoch is first backfilled as a zero-vote
/// block; then `epoch` itself is processed with bitmap `v`.
pub open spec fn spec_update(
    slots: Seq<Option<BitVotesCounter>>,
    act: Map<Seq<char>, Epoch>,
    span: nat,
    last: Epoch,
    v: u32,
    epoch: Epoch,
    block_epoch: Epoch,
    avoid: Set<Seq<char>>,
) -> (Seq<Option<BitVotesCounter>>, Map<Seq<char>, Epoch>) {
    if last != 0 && epoch > last + 1 {
        let filled = spec_backfill(slots, act, span, last + 1, epoch as int, block_epoch, avoid);
        spec_process_bits(filled.0, filled.1, v, epoch, block_epoch, avoid, span)
    } else {
        spec_process_bits(slots, act, v, epoch, block_epoch, avoid, span)
    }
}

/// Counting period, in epochs, of the WIP0014 vote on each network.
pub open spec fn spec_wip0014_period(environment: Environment) -> Epoch {
    if environment == Environment::Mainnet {
        26880
    } else {
        120
    }
}

/// First epoch of the WIP0014 voting window on each network.
pub open spec fn spec_wip0014_init(environment: Environment) -> Epoch {
    if environment == Environment::Mainnet {
        500000
    } else {
        5200
    }
}

/// Activation epoch seeded for WIP0008: the first hard fork on the primary
/// network, never on the others.
pub open spec fn spec_wip0008_epoch(environment: Environment) -> Epoch {
    if environment == Environment::Mainnet {
        FIRST_HARD_FORK
    } else {
        u32::MAX
    }
}

/// Activation epoch seeded for WIPs 0009, 0011 and 0012: the second hard
/// fork on the primary network, never on the others.
pub open spec fn spec_wips_0009_0011_0012_epoch(environment: Environment) -> Epoch {
    if environment == Environment::Mainnet {
        SECOND_HARD_FORK
    } else {
        u32::MAX
    }
}

/// Whether some tracked bit holds a proposal named `name` whose voting
/// window contains `epoch`.
pub open spec fn spec_in_voting_range(
    slots: Seq<Option<BitVotesCounter>>,
    span: int,
    epoch: Epoch,
    name: Seq<char>,
) -> bool {
    exists|i: int|
        0 <= i < span && (#[trigger] spec_active_at(slots, i, epoch)) is Some && spec_active_at(
            slots,
            i,
            epoch,
        ).unwrap().wip@ == name
}

/// Sole owner of the mutable consensus-vote state: the bit-vote table and
/// the write-once activation registry.
#[derive(Clone, Debug, PartialEq)]
pub struct TapiEngine {
    /// Bit votes counter by bits.
    pub bit_tapi_counter: BitTapiCounter,
    /// WIP activation registry.
    pub wip_activation: ActivationMap,
}

impl TapiEngine {
    /// Well-formed engine: table and registry both well-formed.
    pub open spec fn wf(&self) -> bool {
        &&& self.bit_tapi_counter.wf()
        &&& self.wip_activation.wf()
    }

    /// Every registered proposal counts over a period of at least one
    /// epoch.
    pub open spec fn periods_positive(&self) -> bool {
        forall|i: int|
            0 <= i < BIT_TABLE_SIZE && (#[trigger] self.bit_tapi_counter.info@[i]) is Some
                ==> self.bit_tapi_counter.info@[i].unwrap().period >= 1
    }

    /// Counts the votes of the block at `epoch_to_update` whose version
    /// bitmap is `v`, backfilling skipped epochs as zero-vote blocks, and
    /// records any activation reached at a period boundary as effective 21
    /// epochs after `block_epoch`. WIPs named in `avoid_wip_list`, and WIPs
    /// already activated, are left untouched.
    ///
    /// `epoch_to_update` becomes the highest epoch processed. One validation
    /// pipeline calls this in increasing block order, which keeps that mark
    /// monotonic; a call for an older block is accepted and counts its votes
    /// again, as recounting old blocks is part of restart handling.
    pub fn update_bit_counter(
        &mut self,
        v: u32,
        epoch_to_update: Epoch,
        block_epoch: Epoch,
        avoid_wip_list: &StringHashSet,
    )
        requires
            old(self).wf(),
            old(self).periods_positive(),
            block_epoch + 21 <= u32::MAX,
        ensures
            final(self).wf(),
            final(self).periods_positive(),
            final(self).bit_tapi_counter.last_epoch == epoch_to_update,
            final(self).bit_tapi_counter.current_length == old(self).bit_tapi_counter.current_length,
            ({
                let stepped = spec_update(
                    old(self).bit_tapi_counter.info@,
                    old(self).wip_activation@,
                    old(self).bit_tapi_counter.current_length as nat,
                    old(self).bit_tapi_counter.last_epoch,
                    v,
                    epoch_to_update,
                    block_epoch,
                    avoid_wip_list@,
                );
                final(self).bit_tapi_counter.info@ == stepped.0 && final(self).wip_activation@
                    == stepped.1
            }),
            forall|name: Seq<char>|
                #[trigger] old(self).wip_activation@.contains_key(name)
                    ==> final(self).wip_activation@.contains_key(name)
                    && final(self).wip_activation@[name] == old(self).wip_activation@[name],
        decreases epoch_to_update,
    {
        let last = self.bit_tapi_counter.last_epoch;
        // `epoch_to_update > last + 1` without overflowing the addition.
        if last != 0 && epoch_to_update > last && epoch_to_update - last > 1 {
            let init = last + 1;
            let end = epoch_to_update;
            let ghost span = self.bit_tapi_counter.current_length as nat;
            let ghost slots0 = self.bit_tapi_counter.info@;
            let ghost act0 = self.wip_activation@;
            for i in init..end
                invariant
                    init == last + 1,
                    init <= i <= end,
                    end == epoch_to_update,
                    last == old(self).bit_tapi_counter.last_epoch,
                    span == old(self).bit_tapi_counter.current_length as nat,
                    slots0 == old(self).bit_tapi_counter.info@,
                    act0 == old(self).wip_activation@,
                    self.wf(),
                    self.periods_positive(),
                    block_epoch + 21 <= u32::MAX,
                    self.bit_tapi_counter.current_length
                        == old(self).bit_tapi_counter.current_length,
                    self.bit_tapi_counter.last_epoch == (if i == init {
                        last
                    } else {
                        (i - 1) as u32
                    }),
                    ({
                        let filled = spec_backfill(
                            slots0,
                            act0,
                            span,
                            init as int,
                            i as int,
                            block_epoch,
                            avoid_wip_list@,
                        );
                        self.bit_tapi_counter.info@ == filled.0 && self.wip_activation@
                            == filled.1
                    }),
                decreases end - i,
            {
                proof {
                    lemma_backfill_extend(
                        slots0,
                        act0,
                        span,
                        init as int,
                        i as int,
                        block_epoch,
                        avoid_wip_list@,
                    );
                }
                self.update_bit_counter(0, i, block_epoch, avoid_wip_list);
            }
        }
        self.update_single_epoch(v, epoch_to_update, block_epoch, avoid_wip_list);
        proof {
            assert forall|name: Seq<char>| #[trigger]
                old(self).wip_activation@.contains_key(name) implies self.wip_activation@.contains_key(
                name,
            ) && self.wip_activation@[name] == old(self).wip_activation@[name] by {
                lemma_update_write_once(
                    old(self).bit_tapi_counter.info@,
                    old(self).wip_activation@,
                    old(self).bit_tapi_counter.current_length as nat,
                    old(self).bit_tapi_counter.last_epoch,
                    v,
                    epoch_to_update,
                    block_epoch,
                    avoid_wip_list@,
                    name,
                );
            }
        }
    }

    /// Counts the votes of one epoch over every tracked bit, then records
    /// `epoch_to_update` as the highest epoch processed.
    fn update_single_epoch(
        &mut self,
        v: u32,
        epoch_to_update: Epoch,
        block_epoch: Epoch,
        avoid_wip_list: &StringHashSet,
    )
        requires
            old(self).wf(),
            old(self).periods_positive(),
            block_epoch + 21 <= u32::MAX,
        ensures
            final(self).wf(),
            final(self).periods_positive(),
            final(self).bit_tapi_counter.last_epoch == epoch_to_update,
            final(self).bit_tapi_counter.current_length == old(self).bit_tapi_counter.current_length,
            ({
                let stepped = spec_process_bits(
                    old(self).bit_tapi_counter.info@,
                    old(self).wip_activation@,
                    v,
                    epoch_to_update,
                    block_epoch,
                    avoid_wip_list@,
                    old(self).bit_tapi_counter.current_length as nat,
                );
                final(self).bit_tapi_counter.info@ == stepped.0 && final(self).wip_activation@
                    == stepped.1
            }),
    {
        let ghost slots0 = self.bit_tapi_counter.info@;
        let ghost act0 = self.wip_activation@;
        let span = self.bit_tapi_counter.len();
        for n in 0..span
            invariant
                span == self.bit_tapi_counter.current_length,
                span == old(self).bit_tapi_counter.current_length,
                slots0 == old(self).bit_tapi_counter.info@,
                act0 == old(self).wip_activation@,
                self.wf(),
                self.periods_positive(),
                block_epoch + 21 <= u32::MAX,
                self.bit_tapi_counter.last_epoch == old(self).bit_tapi_counter.last_epoch,
                ({
                    let stepped = spec_process_bits(
                        slots0,
                        act0,
                        v,
                        epoch_to_update,
                        block_epoch,
                        avoid_wip_list@,
                        n as nat,
                    );
                    self.bit_tapi_counter.info@ == stepped.0 && self.wip_activation@ == stepped.1
                }),
        {
            let ghost slots_n = self.bit_tapi_counter.info@;
            let ghost act_n = self.wip_activation@;
            match self.bit_tapi_counter.get_mut(n, &epoch_to_update) {
                Some(bit_counter) => {
                    if !self.wip_activation.contains_key(bit_counter.wip.as_str())
                        && !avoid_wip_list.contains(bit_counter.wip.as_str()) {
                        if is_bit_n_activated(v, n) {
                            if bit_counter.votes < u32::MAX {
                                bit_counter.votes = bit_counter.votes + 1;
                            }
                        }
                        if (epoch_to_update - bit_counter.init) % bit_counter.period == 0 {
                            if (bit_counter.votes as u64) * 100 / (bit_counter.period as u64)
                                >= 80 {
                                // An offset of 21 defers the activation until the
                                // activating block is buried under enough
                                // confirmations to be considered final.
                                self.wip_activation.insert(
                                    bit_counter.wip.clone(),
                                    block_epoch + 21,
                                );
                            }
                            bit_counter.votes = 0;
                        }
                    }
                },
                None => {},
            }
            proof {
                assert(self.bit_tapi_counter.info@ == spec_process_bit(
                    slots_n,
                    act_n,
                    v,
                    epoch_to_update,
                    block_epoch,
                    avoid_wip_list@,
                    n as int,
                ).0);
                assert(self.wip_activation@ == spec_process_bit(
                    slots_n,
                    act_n,
                    v,
                    epoch_to_update,
                    block_epoch,
                    avoid_wip_list@,
                    n as int,
                ).1);
            }
        }
        self.bit_tapi_counter.last_epoch = epoch_to_update;
    }

    /// Registers the hardcoded WIP table of `environment` and seeds the two
    /// activation entries agreed by community coordination before online
    /// voting existed.
    ///
    /// Bit 0 tracks WIP0014; a proposal already registered there under the
    /// same name is reported as preexisting and left untouched, otherwise
    /// the fresh proposal is registered and its `init` is returned as the
    /// lowest epoch whose votes still need counting. Every other slot is
    /// cleared.
    pub fn initialize_wip_information(&mut self, environment: Environment) -> (r: (
        Epoch,
        StringHashSet,
    ))
        requires
            old(self).wf(),
        ensures
            final(self).wf(),
            final(self).wip_activation@ == old(self).wip_activation@.insert(
                "WIP0008"@,
                spec_wip0008_epoch(environment),
            ).insert("WIP0009-0011-0012"@, spec_wips_0009_0011_0012_epoch(environment)),
            final(self).bit_tapi_counter.last_epoch == old(self).bit_tapi_counter.last_epoch,
            final(self).bit_tapi_counter.current_length == 1,
            final(self).bit_tapi_counter.info@.len() == BIT_TABLE_SIZE,
            forall|i: int|
                1 <= i < BIT_TABLE_SIZE ==> final(self).bit_tapi_counter.info@[i] is None,
            old(self).periods_positive() ==> final(self).periods_positive(),
            spec_slot_named(old(self).bit_tapi_counter.info@, 0, "WIP0014"@) ==> {
                &&& final(self).bit_tapi_counter.info@[0] == old(self).bit_tapi_counter.info@[0]
                &&& r.0 == u32::MAX
                &&& r.1@ == set!["WIP0014"@]
            },
            !spec_slot_named(old(self).bit_tapi_counter.info@, 0, "WIP0014"@) ==> {
                &&& final(self).bit_tapi_counter.info@[0] is Some
                &&& {
                    let c = final(self).bit_tapi_counter.info@[0].unwrap();
                    c.votes == 0 && c.period == spec_wip0014_period(environment) && c.wip@
                        == "WIP0014"@ && c.init == spec_wip0014_init(environment) && c.end
                        == u32::MAX && c.bit == 0
                }
                &&& r.0 == spec_wip0014_init(environment)
                &&& r.1@ == Set::<Seq<char>>::empty()
                &&& final(self).periods_positive()
            },
    {
        match environment {
            Environment::Mainnet => {
                self.wip_activation.insert("WIP0008".to_owned(), FIRST_HARD_FORK);
                self.wip_activation.insert("WIP0009-0011-0012".to_owned(), SECOND_HARD_FORK);
            },
            Environment::Testnet | Environment::Development => {
                // In non-mainnet chains, the WIPs that activated on mainnet by
                // coordination never take effect and there is no voting for them.
                self.wip_activation.insert("WIP0008".to_owned(), u32::MAX);
                self.wip_activation.insert("WIP0009-0011-0012".to_owned(), u32::MAX);
            },
        }
        let period: Epoch = match environment {
            Environment::Mainnet => 26880,
            Environment::Testnet | Environment::Development => 120,
        };
        let init: Epoch = match environment {
            Environment::Mainnet => 500000,
            Environment::Testnet | Environment::Development => 5200,
        };
        let wip_0014 = BitVotesCounter {
            votes: 0,
            period,
            wip: "WIP0014".to_owned(),
            init,
            end: u32::MAX,
            bit: 0,
        };

        let mut min_epoch: Epoch = u32::MAX;
        let mut old_wips = StringHashSet::new();
        if self.bit_tapi_counter.contains(0, "WIP0014") {
            old_wips.insert("WIP0014".to_owned());
            proof {
                assert(old_wips@ =~= set!["WIP0014"@]);
            }
        } else {
            if wip_0014.init < min_epoch {
                min_epoch = wip_0014.init;
            }
            self.bit_tapi_counter.insert(wip_0014);
        }

        let ghost mid_slots = self.bit_tapi_counter.info@;
        let ghost mid_act = self.wip_activation;
        // Only bit 0 is voteable in the hardcoded tables: clear the rest.
        let mut i: usize = 1;
        while i < BIT_TABLE_SIZE
            invariant
                1 <= i <= BIT_TABLE_SIZE,
                self.bit_tapi_counter.wf(),
                self.wip_activation == mid_act,
                self.bit_tapi_counter.info@.len() == BIT_TABLE_SIZE,
                self.bit_tapi_counter.info@[0] == mid_slots[0],
                self.bit_tapi_counter.last_epoch == old(self).bit_tapi_counter.last_epoch,
                forall|j: int| 1 <= j < i ==> self.bit_tapi_counter.info@[j] is None,
                forall|j: int|
                    i <= j < BIT_TABLE_SIZE ==> self.bit_tapi_counter.info@[j] == mid_slots[j],
            decreases BIT_TABLE_SIZE - i,
        {
            self.bit_tapi_counter.remove(i);
            i = i + 1;
        }
        proof {
            // Exactly bit 0 is occupied, so the occupied span is 1.
            assert(self.bit_tapi_counter.info@[0] is Some);
            if self.bit_tapi_counter.current_length == 0 {
                assert(self.bit_tapi_counter.info@[0] is None);
            }
            if self.bit_tapi_counter.current_length > 1 {
                let top = self.bit_tapi_counter.current_length - 1;
                assert(self.bit_tapi_counter.info@[top] is None);
            }
        }
        (min_epoch, old_wips)
    }

    /// Whether some tracked bit holds a proposal named `wip` whose voting
    /// window contains `epoch`.
    pub fn in_voting_range(&self, epoch: Epoch, wip: &str) -> (in_range: bool)
        ensures
            in_range == spec_in_voting_range(
                self.bit_tapi_counter.info@,
                self.bit_tapi_counter.current_length as int,
                epoch,
                wip@,
            ),
    {
        let len = self.bit_tapi_counter.len();
        let owned: String = wip.to_owned();
        for i in 0..len
            invariant
                len == self.bit_tapi_counter.current_length,
                owned@ == wip@,
                forall|j: int|
                    0 <= j < i ==> !((#[trigger] spec_active_at(
                        self.bit_tapi_counter.info@,
                        j,
                        epoch,
                    )) is Some && spec_active_at(self.bit_tapi_counter.info@, j, epoch).unwrap().wip@
                        == wip@),
        {
            match self.bit_tapi_counter.get(i, &epoch) {
                Some(bit_info) => {
                    if bit_info.wip == owned {
                        proof {
                            assert(spec_active_at(
                                self.bit_tapi_counter.info@,
                                i as int,
                                epoch,
                            ) is Some);
                        }
                        return true;
                    }
                },
                None => {},
            }
        }
        false
    }
}

impl Default for TapiEngine {
    /// An engine with an empty table and an empty activation registry.
    fn default() -> (engine: TapiEngine)
        ensures
            engine.wf(),
            engine.periods_positive(),
            engine.bit_tapi_counter.info@.len() == BIT_TABLE_SIZE,
            forall|i: int| 0 <= i < BIT_TABLE_SIZE ==> engine.bit_tapi_counter.info@[i] is None,
            engine.bit_tapi_counter.last_epoch == 0,
            engine.bit_tapi_counter.current_length == 0,
            engine.wip_activation@ == Map::<Seq<char>, Epoch>::empty(),
    {
        TapiEngine {
            bit_tapi_counter: BitTapiCounter::default(),
            wip_activation: ActivationMap::new(),
        }
    }
}

proof fn lemma_process_bits_write_once(
    slots: Seq<Option<BitVotesCounter>>,
    act: Map<Seq<char>, Epoch>,
    v: u32,
    epoch: Epoch,
    block_epoch: Epoch,
    avoid: Set<Seq<char>>,
    n: nat,
    name: Seq<char>,
)
    requires
        act.contains_key(name),
    ensures
        ({
            let stepped = spec_process_bits(slots, act, v, epoch, block_epoch, avoid, n);
            stepped.1.contains_key(name) && stepped.1[name] == act[name]
        }),
    decreases n,
{
    if n == 0 {
    } else {
        lemma_process_bits_write_once(
            slots,
            act,
            v,
            epoch,
            block_epoch,
            avoid,
            (n - 1) as nat,
            name,
        );
    }
}

proof fn lemma_backfill_write_once(
    slots: Seq<Option<BitVotesCounter>>,
    act: Map<Seq<char>, Epoch>,
    span: nat,
    lo: int,
    hi: int,
    block_epoch: Epoch,
    avoid: Set<Seq<char>>,
    name: Seq<char>,
)
    requires
        act.contains_key(name),
    ensures
        ({
            let filled = spec_backfill(slots, act, span, lo, hi, block_epoch, avoid);
            filled.1.contains_key(name) && filled.1[name] == act[name]
        }),
    decreases hi - lo,
{
    if lo >= hi {
    } else {
        let first = spec_process_bits(slots, act, 0, lo as u32, block_epoch, avoid, span);
        lemma_process_bits_write_once(slots, act, 0, lo as u32, block_epoch, avoid, span, name);
        lemma_backfill_write_once(first.0, first.1, span, lo + 1, hi, block_epoch, avoid, name);
    }
}

/// Activation is write-once: once the activation map binds `name` to an
/// epoch, no later vote-counting call rebinds or removes it, whatever block
/// and bitmap it processes.
pub proof fn lemma_update_write_once(
    slots: Seq<Option<BitVotesCounter>>,
    act: Map<Seq<char>, Epoch>,
    span: nat,
    last: Epoch,
    v: u32,
    epoch: Epoch,
    block_epoch: Epoch,
    avoid: Set<Seq<char>>,
    name: Seq<char>,
)
    requires
        act.contains_key(name),
    ensures
        ({
            let stepped = spec_update(slots, act, span, last, v, epoch, block_epoch, avoid);
            stepped.1.contains_key(name) && stepped.1[name] == act[name]
        }),
{
    if last != 0 && epoch > last + 1 {
        let filled = spec_backfill(slots, act, span, last + 1, epoch as int, block_epoch, avoid);
        lemma_backfill_write_once(
            slots,
            act,
            span,
            last + 1,
            epoch as int,
            block_epoch,
            avoid,
            name,
        );
        lemma_process_bits_write_once(
            filled.0,
            filled.1,
            v,
            epoch,
            block_epoch,
            avoid,
            span,
            name,
        );
    } else {
        lemma_process_bits_write_once(slots, act, v, epoch, block_epoch, avoid, span, name);
    }
}

proof fn lemma_gap_update_peels_first_epoch(
    slots: Seq<Option<BitVotesCounter>>,
    act: Map<Seq<char>, Epoch>,
    span: nat,
    last: Epoch,
    v: u32,
    epoch: Epoch,
    block_epoch: Epoch,
    avoid: Set<Seq<char>>,
)
    requires
        last != 0,
        last + 1 < epoch,
    ensures
        ({
            let first = spec_update(
                slots,
                act,
                span,
                last,
                0,
                (last + 1) as u32,
                block_epoch,
                avoid,
            );
            let direct = spec_update(slots, act, span, last, v, epoch, block_epoch, avoid);
            let resumed = spec_update(
                first.0,
                first.1,
                span,
                (last + 1) as u32,
                v,
                epoch,
                block_epoch,
                avoid,
            );
            direct.0 == resumed.0 && direct.1 == resumed.1
        }),
{
    let step1 = spec_process_bits(slots, act, 0, (last + 1) as u32, block_epoch, avoid, span);
    let first = spec_update(slots, act, span, last, 0, (last + 1) as u32, block_epoch, avoid);
    assert(first.0 == step1.0 && first.1 == step1.1);
    assert(spec_backfill(slots, act, span, last + 1, epoch as int, block_epoch, avoid)
        == spec_backfill(step1.0, step1.1, span, last + 2, epoch as int, block_epoch, avoid));
    if epoch == last + 2 {
        assert(spec_backfill(step1.0, step1.1, span, last + 2, epoch as int, block_epoch, avoid)
            == (step1.0, step1.1));
    }
}

/// Effect of making one vote-counting call per epoch: a zero-vote call at
/// each epoch skipped since `last`, in increasing order (each call leaves
/// its epoch recorded as the last one processed), and then the call at
/// `epoch` itself with bitmap `v`.
pub open spec fn spec_sequential_updates(
    slots: Seq<Option<BitVotesCounter>>,
    act: Map<Seq<char>, Epoch>,
    span: nat,
    last: Epoch,
    v: u32,
    epoch: Epoch,
    block_epoch: Epoch,
    avoid: Set<Seq<char>>,
) -> (Seq<Option<BitVotesCounter>>, Map<Seq<char>, Epoch>)
    decreases epoch - last,
{
    if last != 0 && epoch > last + 1 {
        let mid = spec_update(slots, act, span, last, 0, (last + 1) as u32, block_epoch, avoid);
        spec_sequential_updates(
            mid.0,
            mid.1,
            span,
            (last + 1) as u32,
            v,
            epoch,
            block_epoch,
            avoid,
        )
    } else {
        spec_update(slots, act, span, last, v, epoch, block_epoch, avoid)
    }
}

/// A call that jumps over skipped epochs gives the same table and the same
/// activation map as making one call per epoch: a zero-vote call at each
/// skipped epoch in increasing order, then the call at `epoch` with bitmap
/// `v`. No epoch is ever skipped in the tally, however blocks arrive.
pub proof fn lemma_gap_update_equals_sequential(
    slots: Seq<Option<BitVotesCounter>>,
    act: Map<Seq<char>, Epoch>,
    span: nat,
    last: Epoch,
    v: u32,
    epoch: Epoch,
    block_epoch: Epoch,
    avoid: Set<Seq<char>>,
)
    ensures
        ({
            let direct = spec_update(slots, act, span, last, v, epoch, block_epoch, avoid);
            let stepwise = spec_sequential_updates(
                slots,
                act,
                span,
                last,
                v,
                epoch,
                block_epoch,
                avoid,
            );
            direct.0 == stepwise.0 && direct.1 == stepwise.1
        }),
    decreases epoch - last,
{
    if last != 0 && epoch > last + 1 {
        lemma_gap_update_peels_first_epoch(slots, act, span, last, v, epoch, block_epoch, avoid);
        let mid = spec_update(slots, act, span, last, 0, (last + 1) as u32, block_epoch, avoid);
        lemma_gap_update_equals_sequential(
            mid.0,
            mid.1,
            span,
            (last + 1) as u32,
            v,
            epoch,
            block_epoch,
            avoid,
        );
    }
}

/// Backfilling one more epoch at the top equals backfilling the earlier
/// ones and then processing that epoch as a zero-vote block.
proof fn lemma_backfill_extend(
    slots: Seq<Option<BitVotesCounter>>,
    act: Map<Seq<char>, Epoch>,
    span: nat,
    lo: int,
    hi: int,
    block_epoch: Epoch,
    avoid: Set<Seq<char>>,
)
    requires
        lo <= hi,
    ensures
        ({
            let upto = spec_backfill(slots, act, span, lo, hi, block_epoch, avoid);
            let one_more = spec_backfill(slots, act, span, lo, hi + 1, block_epoch, avoid);
            let stepped = spec_process_bits(upto.0, upto.1, 0, hi as u32, block_epoch, avoid, span);
            one_more.0 == stepped.0 && one_more.1 == stepped.1
        }),
    decreases hi - lo,
{
    let first = spec_process_bits(slots, act, 0, lo as u32, block_epoch, avoid, span);
    if lo == hi {
        assert(spec_backfill(slots, act, span, lo, hi, block_epoch, avoid) == (slots, act));
        assert(spec_backfill(slots, act, span, lo, hi + 1, block_epoch, avoid)
            == spec_backfill(first.0, first.1, span, lo + 1, hi + 1, block_epoch, avoid));
        assert(spec_backfill(first.0, first.1, span, lo + 1, hi + 1, block_epoch, avoid)
            == (first.0, first.1));
    } else {
        lemma_backfill_extend(first.0, first.1, span, lo + 1, hi, block_epoch, avoid);
        assert(spec_backfill(slots, act, span, lo, hi, block_epoch, avoid)
            == spec_backfill(first.0, first.1, span, lo + 1, hi, block_epoch, avoid));
        assert(spec_backfill(slots, act, span, lo, hi + 1, block_epoch, avoid)
            == spec_backfill(first.0, first.1, span, lo + 1, hi + 1, block_epoch, avoid));
    }
}

} // verus!
