use vstd::prelude::*;

use crate::activation::ActivationMap;
use crate::chain::Epoch;

verus! {

/// Number of slots in a bit-vote table: one per bit of a block's `u32`
/// version bitmap.
pub const BIT_TABLE_SIZE: usize = 32;

/// Vote accounting for one tracked WIP: the proposal's name, the bit of the
/// version bitmap assigned to it, its voting window `[init, end)`, the
/// length of each counting period, and the running tally of the current
/// period.
#[derive(Clone, Debug, PartialEq)]
pub struct BitVotesCounter {
    /// Positive votes gathered in the current counting period.
    pub votes: u32,
    /// Length, in epochs, of one counting period.
    pub period: Epoch,
    /// Name of the tracked WIP.
    pub wip: String,
    /// First epoch (inclusive) of the voting window.
    pub init: Epoch,
    /// Last epoch (exclusive) of the voting window.
    pub end: Epoch,
    /// Bit of the version bitmap that counts as a vote for this WIP.
    pub bit: usize,
}

impl BitVotesCounter {
    /// Produces a copy equal to `self`.
    pub fn duplicate(&self) -> (copy: BitVotesCounter)
        ensures
            copy == *self,
    {
        BitVotesCounter {
            votes: self.votes,
            period: self.period,
            wip: self.wip.clone(),
            init: self.init,
            end: self.end,
            bit: self.bit,
        }
    }
}

impl Default for BitVotesCounter {
    /// A blank proposal: empty name, every number zero.
    fn default() -> (counter: BitVotesCounter)
        ensures
            counter.votes == 0,
            counter.period == 0,
            counter.wip@ == Seq::<char>::empty(),
            counter.init == 0,
            counter.end == 0,
            counter.bit == 0,
    {
        BitVotesCounter {
            votes: 0,
            period: 0,
            wip: String::new(),
            init: 0,
            end: 0,
            bit: 0,
        }
    }
}

/// Whether `epoch` lies in the voting window of proposal `c`.
pub open spec fn in_window(c: BitVotesCounter, epoch: Epoch) -> bool {
    c.init <= epoch < c.end
}

/// The proposal registered at `bit` if `epoch` lies in its voting window,
/// and `None` otherwise.
pub open spec fn spec_active_at(
    slots: Seq<Option<BitVotesCounter>>,
    bit: int,
    epoch: Epoch,
) -> Option<BitVotesCounter> {
    if 0 <= bit < slots.len() {
        match slots[bit] {
            Some(c) => if in_window(c, epoch) {
                Some(c)
            } else {
                None
            },
            None => None,
        }
    } else {
        None
    }
}

/// Whether the slot at `bit` holds a proposal named `name`.
pub open spec fn spec_slot_named(
    slots: Seq<Option<BitVotesCounter>>,
    bit: int,
    name: Seq<char>,
) -> bool {
    match spec_slot(slots, bit) {
        Some(c) => c.wip@ == name,
        None => false,
    }
}

/// The slot at `bit`, or `None` when `bit` is out of range.
pub open spec fn spec_slot(slots: Seq<Option<BitVotesCounter>>, bit: int) -> Option<
    BitVotesCounter,
> {
    if 0 <= bit < slots.len() {
        slots[bit]
    } else {
        None
    }
}

/// The proposals, in slot order, of the first `span` slots that are occupied
/// and whose WIP has no activation entry in `act`: those still subject to
/// voting.
pub open spec fn spec_voting_slots(
    slots: Seq<Option<BitVotesCounter>>,
    act: Map<Seq<char>, Epoch>,
) -> Seq<BitVotesCounter>
    decreases slots.len(),
{
    if slots.len() == 0 {
        Seq::empty()
    } else {
        let prefix = spec_voting_slots(slots.drop_last(), act);
        match slots.last() {
            Some(c) => if !act.contains_key(c.wip@) {
                prefix.push(c)
            } else {
                prefix
            },
            None => prefix,
        }
    }
}

/// Fixed table of up to 32 concurrently tracked proposals, indexed by bit
/// position, together with the highest epoch already processed and one past
/// the highest occupied slot (kept for fast iteration).
#[derive(Clone, Debug, PartialEq)]
pub struct BitTapiCounter {
    /// One optional proposal per bit of the version bitmap.
    pub info: Vec<Option<BitVotesCounter>>,
    /// Highest epoch already processed by vote counting.
    pub last_epoch: Epoch,
    /// One past the highest occupied slot, or 0 when the table is empty.
    pub current_length: usize,
}

impl BitTapiCounter {
    /// Well-formed table: exactly 32 slots, each occupied slot records its
    /// own index as its bit, and `current_length` is one past the highest
    /// occupied slot (0 when none is occupied).
    pub open spec fn wf(&self) -> bool {
        &&& self.info@.len() == BIT_TABLE_SIZE
        &&& forall|i: int|
            0 <= i < BIT_TABLE_SIZE ==> (#[trigger] self.info@[i]) is Some ==> self.info@[i].unwrap().bit
                == i
        &&& self.current_length <= BIT_TABLE_SIZE
        &&& forall|i: int| self.current_length <= i < BIT_TABLE_SIZE ==> self.info@[i] is None
        &&& self.current_length > 0 ==> self.info@[self.current_length - 1] is Some
    }

    /// The proposal at `bit` whose voting window contains `epoch`, if any.
    pub fn get(&self, bit: usize, epoch: &u32) -> (active: Option<&BitVotesCounter>)
        ensures
            match active {
                Some(c) => spec_active_at(self.info@, bit as int, *epoch) == Some(*c),
                None => spec_active_at(self.info@, bit as int, *epoch) is None,
            },
    {
        if bit >= self.info.len() {
            return None;
        }
        match &self.info[bit] {
            Some(bit_info) => {
                if *epoch >= bit_info.init && *epoch < bit_info.end {
                    Some(bit_info)
                } else {
                    None
                }
            },
            None => None,
        }
    }

    /// Mutable counterpart of `get`, used to advance vote tallies. Whatever
    /// the caller writes through the returned reference becomes the new
    /// occupant of that slot; the rest of the table is untouched.
    pub fn get_mut(&mut self, bit: usize, epoch: &u32) -> (active: Option<&mut BitVotesCounter>)
        ensures
            match active {
                Some(c) => {
                    &&& spec_active_at(old(self).info@, bit as int, *epoch) == Some(*c)
                    &&& final(self).info@ == old(self).info@.update(bit as int, Some(*final(c)))
                    &&& final(self).last_epoch == old(self).last_epoch
                    &&& final(self).current_length == old(self).current_length
                },
                None => {
                    &&& spec_active_at(old(self).info@, bit as int, *epoch) is None
                    &&& final(self).info@ == old(self).info@
                    &&& final(self).last_epoch == old(self).last_epoch
                    &&& final(self).current_length == old(self).current_length
                },
            },
    {
        if bit >= self.info.len() {
            return None;
        }
        let slot = &mut self.info[bit];
        match slot.as_mut() {
            Some(bit_info) => {
                if *epoch >= bit_info.init && *epoch < bit_info.end {
                    Some(bit_info)
                } else {
                    None
                }
            },
            None => None,
        }
    }

    /// Registers `bit_info` at its bit position, overwriting any previous
    /// occupant. A bit position out of range leaves the table unchanged
    /// (a configuration anomaly must not halt consensus processing).
    pub fn insert(&mut self, bit_info: BitVotesCounter)
        requires
            old(self).wf(),
        ensures
            final(self).wf(),
            bit_info.bit >= BIT_TABLE_SIZE ==> *final(self) == *old(self),
            bit_info.bit < BIT_TABLE_SIZE ==> {
                &&& final(self).info@ == old(self).info@.update(bit_info.bit as int, Some(bit_info))
                &&& final(self).last_epoch == old(self).last_epoch
                &&& final(self).current_length == (if bit_info.bit + 1 > old(self).current_length {
                    bit_info.bit + 1
                } else {
                    old(self).current_length as int
                })
            },
    {
        let k = bit_info.bit;
        if k >= self.info.len() {
            return;
        }
        self.info[k] = Some(bit_info);
        if k >= self.current_length {
            self.current_length = k + 1;
        }
    }

    /// Clears the slot at `bit` and recomputes `current_length` when the
    /// highest occupied slot was removed. A bit position out of range leaves
    /// the table unchanged.
    pub fn remove(&mut self, bit: usize)
        requires
            old(self).wf(),
        ensures
            final(self).wf(),
            bit >= BIT_TABLE_SIZE ==> *final(self) == *old(self),
            bit < BIT_TABLE_SIZE ==> {
                &&& final(self).info@ == old(self).info@.update(bit as int, None)
                &&& final(self).last_epoch == old(self).last_epoch
            },
            bit < BIT_TABLE_SIZE && bit + 1 != old(self).current_length
                ==> final(self).current_length == old(self).current_length,
    {
        if bit >= self.info.len() {
            return;
        }
        self.info[bit] = None;
        if bit + 1 == self.current_length {
            self.update_current_length();
        }
    }

    /// Rescans the table and sets `current_length` to one past the highest
    /// occupied slot, or 0 when the table is empty.
    pub fn update_current_length(&mut self)
        requires
            old(self).info@.len() == BIT_TABLE_SIZE,
            forall|i: int|
                0 <= i < BIT_TABLE_SIZE ==> (#[trigger] old(self).info@[i]) is Some ==> old(
                    self,
                ).info@[i].unwrap().bit == i,
        ensures
            final(self).info@ == old(self).info@,
            final(self).last_epoch == old(self).last_epoch,
            final(self).current_length <= BIT_TABLE_SIZE,
            forall|i: int|
                final(self).current_length <= i < BIT_TABLE_SIZE ==> final(self).info@[i] is None,
            final(self).current_length > 0 ==> final(self).info@[final(self).current_length
                - 1] is Some,
    {
        let mut length: usize = 0;
        let n = self.info.len();
        for i in 0..n
            invariant
                n == BIT_TABLE_SIZE,
                self.info@.len() == BIT_TABLE_SIZE,
                self.info@ == old(self).info@,
                self.last_epoch == old(self).last_epoch,
                forall|k: int|
                    0 <= k < BIT_TABLE_SIZE ==> (#[trigger] self.info@[k]) is Some
                        ==> self.info@[k].unwrap().bit == k,
                length <= i,
                forall|k: int| length <= k < i ==> self.info@[k] is None,
                length > 0 ==> self.info@[length - 1] is Some,
        {
            if let Some(bit_info) = &self.info[i] {
                length = bit_info.bit + 1;
            }
        }
        self.current_length = length;
    }

    /// Whether the slot at `bit` holds a proposal named `wip`, whatever its
    /// voting window.
    pub fn contains(&self, bit: usize, wip: &str) -> (present: bool)
        ensures
            present == spec_slot_named(self.info@, bit as int, wip@),
    {
        let owned: String = wip.to_owned();
        if bit >= self.info.len() {
            return false;
        }
        match &self.info[bit] {
            Some(bit_info) => bit_info.wip == owned,
            None => false,
        }
    }

    /// One past the highest occupied bit position.
    pub fn len(&self) -> (n: usize)
        ensures
            n == self.current_length,
    {
        self.current_length
    }

    /// Whether no slot is occupied.
    pub fn is_empty(&self) -> (empty: bool)
        ensures
            empty == (self.current_length == 0),
    {
        self.current_length == 0
    }

    /// The proposals still subject to voting: every occupied slot whose WIP
    /// has no entry in `active_wips` yet, in slot order.
    pub fn info(&self, active_wips: &ActivationMap) -> (voting: Vec<BitVotesCounter>)
        requires
            self.wf(),
        ensures
            voting@ == spec_voting_slots(
                self.info@.take(self.current_length as int),
                active_wips@,
            ),
    {
        let mut voting: Vec<BitVotesCounter> = Vec::new();
        let span = self.current_length;
        for i in 0..span
            invariant
                span == self.current_length,
                self.wf(),
                voting@ == spec_voting_slots(self.info@.take(i as int), active_wips@),
        {
            proof {
                assert(self.info@.take(i + 1).drop_last() =~= self.info@.take(i as int));
                assert(self.info@.take(i + 1).last() == self.info@[i as int]);
            }
            if let Some(bit_info) = &self.info[i] {
                if !active_wips.contains_key(bit_info.wip.as_str()) {
                    voting.push(bit_info.duplicate());
                }
            }
        }
        proof {
            assert(self.info@.take(span as int) == self.info@.take(self.current_length as int));
        }
        voting
    }

    /// Highest epoch already processed by vote counting.
    pub fn last_epoch(&self) -> (epoch: Epoch)
        ensures
            epoch == self.last_epoch,
    {
        self.last_epoch
    }
}

/// `current_length` carries no information of its own: in a well-formed
/// table it is determined by which slots are occupied, so recomputing it
/// after a removal can never drift from the true occupied span.
pub proof fn lemma_span_is_function_of_slots(c1: BitTapiCounter, c2: BitTapiCounter)
    requires
        c1.wf(),
        c2.wf(),
        c1.info@ == c2.info@,
    ensures
        c1.current_length == c2.current_length,
{
    if c1.current_length < c2.current_length {
        assert(c1.info@[c2.current_length - 1] is None);
        assert(c2.info@[c2.current_length - 1] is Some);
    }
    if c2.current_length < c1.current_length {
        assert(c2.info@[c1.current_length - 1] is None);
        assert(c1.info@[c1.current_length - 1] is Some);
    }
}

impl Default for BitTapiCounter {
    /// An empty table: 32 vacant slots, no processed epoch.
    fn default() -> (counter: BitTapiCounter)
        ensures
            counter.wf(),
            counter.info@.len() == BIT_TABLE_SIZE,
            forall|i: int| 0 <= i < BIT_TABLE_SIZE ==> counter.info@[i] is None,
            counter.last_epoch == 0,
            counter.current_length == 0,
    {
        let mut info: Vec<Option<BitVotesCounter>> = Vec::new();
        for i in 0..BIT_TABLE_SIZE
            invariant
                info@.len() == i,
                forall|k: int| 0 <= k < i ==> info@[k] is None,
        {
            info.push(None);
        }
        BitTapiCounter { info, last_epoch: 0, current_length: 0 }
    }
}

} // verus!
