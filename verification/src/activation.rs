use vstd::prelude::*;

use crate::chain::Epoch;

verus! {

/// Mathematical contents of an activation table: the map from each WIP name
/// (as a character sequence) to its activation epoch, built by folding the
/// stored entries from first to last.
spec fn map_of(entries: Seq<(String, Epoch)>) -> Map<Seq<char>, Epoch>
    decreases entries.len(),
{
    if entries.len() == 0 {
        Map::empty()
    } else {
        map_of(entries.drop_last()).insert(entries.last().0@, entries.last().1)
    }
}

/// No two stored entries name the same WIP.
pub open spec fn keys_distinct(entries: Seq<(String, Epoch)>) -> bool {
    forall|i: int, j: int| 0 <= i < j < entries.len() ==> entries[i].0@ != entries[j].0@
}

proof fn lemma_map_of_contains(entries: Seq<(String, Epoch)>, k: Seq<char>)
    ensures
        map_of(entries).contains_key(k) <==> (exists|i: int|
            0 <= i < entries.len() && entries[i].0@ == k),
    decreases entries.len(),
{
    if entries.len() == 0 {
    } else {
        let prefix = entries.drop_last();
        lemma_map_of_contains(prefix, k);
        if entries.last().0@ == k {
            assert(entries[entries.len() - 1].0@ == k);
        } else {
            if map_of(entries).contains_key(k) {
                let i = choose|i: int| 0 <= i < prefix.len() && prefix[i].0@ == k;
                assert(entries[i].0@ == k);
            }
            if exists|i: int| 0 <= i < entries.len() && entries[i].0@ == k {
                let i = choose|i: int| 0 <= i < entries.len() && entries[i].0@ == k;
                assert(prefix[i].0@ == k);
            }
        }
    }
}

proof fn lemma_map_of_index(entries: Seq<(String, Epoch)>, i: int)
    requires
        keys_distinct(entries),
        0 <= i < entries.len(),
    ensures
        map_of(entries).contains_key(entries[i].0@),
        map_of(entries)[entries[i].0@] == entries[i].1,
    decreases entries.len(),
{
    if i == entries.len() - 1 {
    } else {
        let prefix = entries.drop_last();
        assert(prefix[i] == entries[i]);
        lemma_map_of_index(prefix, i);
        assert(entries.last().0@ != entries[i].0@);
    }
}

proof fn lemma_map_of_update(entries: Seq<(String, Epoch)>, i: int, p: (String, Epoch))
    requires
        keys_distinct(entries),
        0 <= i < entries.len(),
        p.0@ == entries[i].0@,
    ensures
        map_of(entries.update(i, p)) =~= map_of(entries).insert(p.0@, p.1),
    decreases entries.len(),
{
    let updated = entries.update(i, p);
    if i == entries.len() - 1 {
        assert(updated.drop_last() =~= entries.drop_last());
        assert(updated.last() == p);
    } else {
        let prefix = entries.drop_last();
        assert(prefix[i] == entries[i]);
        lemma_map_of_update(prefix, i, p);
        assert(updated.drop_last() =~= prefix.update(i, p));
        assert(updated.last() == entries.last());
        assert(entries.last().0@ != p.0@);
    }
}

proof fn lemma_map_of_len(entries: Seq<(String, Epoch)>)
    requires
        keys_distinct(entries),
    ensures
        map_of(entries).dom().finite(),
        map_of(entries).len() == entries.len(),
    decreases entries.len(),
{
    if entries.len() == 0 {
        assert(map_of(entries).dom() =~= Set::<Seq<char>>::empty());
    } else {
        let prefix = entries.drop_last();
        lemma_map_of_len(prefix);
        lemma_map_of_contains(prefix, entries.last().0@);
        assert(forall|i: int|
            0 <= i < prefix.len() ==> entries[i].0@ != entries.last().0@ && prefix[i] == entries[i]);
        assert(!map_of(prefix).contains_key(entries.last().0@));
        assert(map_of(entries).dom() =~= map_of(prefix).dom().insert(entries.last().0@));
    }
}

/// Registry of activated WIPs: a write-once (per name) association from WIP
/// name to the epoch at which the WIP takes effect. Absence of a name means
/// "not yet activated".
///
/// The view of an `ActivationMap` is the `Map` from name to activation
/// epoch that its entries describe.
#[derive(Clone, Debug, PartialEq)]
pub struct ActivationMap {
    entries: Vec<(String, Epoch)>,
}

impl View for ActivationMap {
    type V = Map<Seq<char>, Epoch>;

    closed spec fn view(&self) -> Map<Seq<char>, Epoch> {
        map_of(self.entries@)
    }
}

impl ActivationMap {
    /// Well-formed: no WIP name is stored twice.
    pub closed spec fn wf(&self) -> bool {
        keys_distinct(self.entries@)
    }

    /// Creates an empty activation registry.
    pub fn new() -> (m: ActivationMap)
        ensures
            m.wf(),
            m@ == Map::<Seq<char>, Epoch>::empty(),
    {
        ActivationMap { entries: Vec::new() }
    }

    /// Index of the entry that names `name`, if one exists.
    fn find_index(&self, name: &String) -> (r: Option<usize>)
        ensures
            match r {
                Some(i) => i < self.entries@.len() && self.entries@[i as int].0@ == name@,
                None => forall|j: int| 0 <= j < self.entries@.len() ==> self.entries@[j].0@ != name@,
            },
    {
        let n = self.entries.len();
        for i in 0..n
            invariant
                n == self.entries@.len(),
                forall|j: int| 0 <= j < i ==> self.entries@[j].0@ != name@,
        {
            if self.entries[i].0 == *name {
                return Some(i);
            }
        }
        None
    }

    /// Whether `name` already has an activation epoch.
    pub fn contains_key(&self, name: &str) -> (present: bool)
        ensures
            present == self@.contains_key(name@),
    {
        let owned: String = name.to_owned();
        let found = self.find_index(&owned);
        proof {
            lemma_map_of_contains(self.entries@, name@);
        }
        found.is_some()
    }

    /// The activation epoch recorded for `name`, if any.
    pub fn get(&self, name: &str) -> (epoch: Option<Epoch>)
        requires
            self.wf(),
        ensures
            match epoch {
                Some(e) => self@.contains_key(name@) && e == self@[name@],
                None => !self@.contains_key(name@),
            },
    {
        let owned: String = name.to_owned();
        match self.find_index(&owned) {
            Some(i) => {
                proof {
                    lemma_map_of_index(self.entries@, i as int);
                }
                Some(self.entries[i].1)
            },
            None => {
                proof {
                    lemma_map_of_contains(self.entries@, name@);
                }
                None
            },
        }
    }

    /// Records `name -> epoch`, replacing any previous entry for `name`.
    pub fn insert(&mut self, name: String, epoch: Epoch)
        requires
            old(self).wf(),
        ensures
            final(self).wf(),
            final(self)@ == old(self)@.insert(name@, epoch),
    {
        let ghost k = name@;
        match self.find_index(&name) {
            Some(i) => {
                proof {
                    lemma_map_of_update(self.entries@, i as int, (name, epoch));
                }
                self.entries[i] = (name, epoch);
                proof {
                    assert(self.entries@ == old(self).entries@.update(i as int, self.entries@[i as int]));
                    assert(forall|a: int, b: int|
                        0 <= a < b < self.entries@.len() ==> self.entries@[a].0@
                            != self.entries@[b].0@);
                }
            },
            None => {
                self.entries.push((name, epoch));
                proof {
                    assert(self.entries@.drop_last() =~= old(self).entries@);
                    assert(forall|a: int, b: int|
                        0 <= a < b < self.entries@.len() ==> self.entries@[a].0@
                            != self.entries@[b].0@);
                }
            },
        }
    }

    /// Number of activated WIPs.
    pub fn len(&self) -> (n: usize)
        requires
            self.wf(),
        ensures
            n == self@.len(),
    {
        proof {
            lemma_map_of_len(self.entries@);
        }
        self.entries.len()
    }

    /// Whether no WIP has activated yet.
    pub fn is_empty(&self) -> (empty: bool)
        requires
            self.wf(),
        ensures
            empty == (self@.len() == 0),
    {
        self.len() == 0
    }

    /// The stored `(name, activation epoch)` pairs, for persistence and
    /// inspection. Every pair is in the map, every name appears once, and
    /// there are as many pairs as mapped names.
    pub fn entries(&self) -> (pairs: &Vec<(String, Epoch)>)
        requires
            self.wf(),
        ensures
            pairs@.len() == self@.len(),
            keys_distinct(pairs@),
            forall|i: int|
                0 <= i < pairs@.len() ==> self@.contains_key(#[trigger] pairs@[i].0@) && self@[pairs@[i].0@]
                    == pairs@[i].1,
    {
        proof {
            lemma_map_of_len(self.entries@);
            assert forall|i: int| 0 <= i < self.entries@.len() implies self@.contains_key(
                #[trigger] self.entries@[i].0@,
            ) && self@[self.entries@[i].0@] == self.entries@[i].1 by {
                lemma_map_of_index(self.entries@, i);
            }
        }
        &self.entries
    }
}

impl Default for ActivationMap {
    /// An empty activation registry.
    fn default() -> (m: ActivationMap)
        ensures
            m.wf(),
            m@ == Map::<Seq<char>, Epoch>::empty(),
    {
        ActivationMap::new()
    }
}

/// True iff the WIP called `name` is active at `block_epoch` under the
/// activation map `m`: it has an activation epoch and that epoch has been
/// reached.
pub open spec fn spec_is_active(m: Map<Seq<char>, Epoch>, block_epoch: Epoch, name: Seq<char>) -> bool {
    m.contains_key(name) && block_epoch >= m[name]
}

/// Read-only snapshot used by validation logic to ask which WIPs govern a
/// given block.
#[derive(Clone, Debug)]
pub struct ActiveWips {
    /// Activation registry in force for the queried block.
    pub active_wips: ActivationMap,
    /// Epoch of the queried block.
    pub block_epoch: Epoch,
}

impl ActiveWips {
    /// WIP0008 was activated through community coordination on
    /// 22 January 2021.
    pub fn wip_0008(&self) -> (active: bool)
        requires
            self.active_wips.wf(),
        ensures
            active == spec_is_active(self.active_wips@, self.block_epoch, "WIP0008"@),
    {
        match self.active_wips.get("WIP0008") {
            Some(activation_epoch) => self.block_epoch >= activation_epoch,
            None => false,
        }
    }

    /// WIPs 0009, 0011 and 0012 were activated through community
    /// coordination on 28 April 2021.
    pub fn wips_0009_0011_0012(&self) -> (active: bool)
        requires
            self.active_wips.wf(),
        ensures
            active == spec_is_active(self.active_wips@, self.block_epoch, "WIP0009-0011-0012"@),
    {
        match self.active_wips.get("WIP0009-0011-0012") {
            Some(activation_epoch) => self.block_epoch >= activation_epoch,
            None => false,
        }
    }

    /// WIP0014 is subject to bit voting.
    pub fn wip0014(&self) -> (active: bool)
        requires
            self.active_wips.wf(),
        ensures
            active == spec_is_active(self.active_wips@, self.block_epoch, "WIP0014"@),
    {
        match self.active_wips.get("WIP0014") {
            Some(activation_epoch) => self.block_epoch >= activation_epoch,
            None => false,
        }
    }
}

} // verus!
