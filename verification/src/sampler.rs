use vstd::prelude::*;

use crate::chain::PublicKeyHash;

verus! {

/// Increment that advances the generator state between draws.
pub const STATE_INCREMENT: u64 = 0x9E3779B97F4A7C15;

/// Offset basis of the seed-absorbing fold.
pub const SEED_FOLD_BASIS: u64 = 0xcbf29ce484222325;

/// Multiplier of the seed-absorbing fold.
pub const SEED_FOLD_PRIME: u64 = 0x100000001b3;

/// Output mixing of the seeded generator: a fixed bijective scramble of the
/// state, so that consecutive states yield uncorrelated draws.
pub open spec fn spec_mix64(z0: u64) -> u64 {
    let z1 = (z0 ^ (z0 >> 30u64)).wrapping_mul(0xBF58476D1CE4E5B9u64);
    let z2 = (z1 ^ (z1 >> 27u64)).wrapping_mul(0x94D049BB133111EBu64);
    z2 ^ (z2 >> 31u64)
}

/// State reached after absorbing every seed byte in order.
pub open spec fn spec_seed_state(seed: Seq<u8>) -> u64
    decreases seed.len(),
{
    if seed.len() == 0 {
        SEED_FOLD_BASIS
    } else {
        (spec_seed_state(seed.drop_last()) ^ (seed.last() as u64)).wrapping_mul(SEED_FOLD_PRIME)
    }
}

/// One draw-and-swap step of the partial shuffle at position `i`: the state
/// advances, the draw picks a uniform position `j` in `[i, len)`, and the
/// elements at `i` and `j` change places.
pub open spec fn spec_swap_step(idx: Seq<usize>, state: u64, i: int) -> (Seq<usize>, u64) {
    let state1 = state.wrapping_add(STATE_INCREMENT);
    if 0 <= i < idx.len() {
        let j = i + (spec_mix64(state1) as int % (idx.len() - i));
        (idx.update(i, idx[j]).update(j, idx[i]), state1)
    } else {
        (idx, state1)
    }
}

/// Index permutation and generator state after the first `k` draw-and-swap
/// steps of a partial shuffle of `0 .. n`, seeded with `state0`.
pub open spec fn spec_shuffle_prefix(n: nat, state0: u64, k: nat) -> (Seq<usize>, u64)
    decreases k,
{
    if k == 0 {
        (Seq::new(n, |i: int| i as usize), state0)
    } else {
        let prior = spec_shuffle_prefix(n, state0, (k - 1) as nat);
        spec_swap_step(prior.0, prior.1, k - 1)
    }
}

/// Committee drawn from `population` by the seeded partial shuffle: the
/// members at the first `size` positions of the shuffled index permutation.
/// A function of `(population, size, seed)` alone, so every conforming node
/// derives the identical committee from the identical seed.
pub open spec fn spec_sample(population: Seq<PublicKeyHash>, size: nat, seed: Seq<u8>) -> Seq<
    PublicKeyHash,
> {
    let indices = spec_shuffle_prefix(population.len(), spec_seed_state(seed), size).0;
    Seq::new(size, |k: int| population[indices[k] as int])
}

/// Sampling failure: the committee cannot be drawn.
#[derive(Clone, Copy, Debug, PartialEq, Eq, Structural)]
pub enum SamplingError {
    /// More members were requested than the population holds; the caller
    /// must not proceed with an undersized committee.
    InsufficientPopulation,
}

/// Swapping the entries at `i` and `j` keeps a sequence of distinct
/// positions below `n` a sequence of distinct positions below `n`.
proof fn lemma_swap_keeps_distinct(prior: Seq<usize>, swapped: Seq<usize>, n: nat, i: int, j: int)
    requires
        prior.len() == n,
        forall|a: int| 0 <= a < n ==> (#[trigger] prior[a]) < n,
        forall|a: int, b: int| 0 <= a < b < n ==> prior[a] != prior[b],
        0 <= i < n,
        0 <= j < n,
        swapped == prior.update(i, prior[j]).update(j, prior[i]),
    ensures
        swapped.len() == n,
        forall|a: int| 0 <= a < n ==> (#[trigger] swapped[a]) < n,
        forall|a: int, b: int| 0 <= a < b < n ==> swapped[a] != swapped[b],
{
    assert forall|x: int, y: int|
        0 <= x < n && 0 <= y < n && x != y implies prior[x] != prior[y] by {
        if x < y {
            assert(prior[x] != prior[y]);
        } else {
            assert(prior[y] != prior[x]);
        }
    }
    assert forall|a: int| 0 <= a < n implies (#[trigger] swapped[a]) < n by {
        assert(swapped[a] == (if a == j {
            prior[i]
        } else if a == i {
            prior[j]
        } else {
            prior[a]
        }));
    }
    assert forall|a: int, b: int| 0 <= a < b < n implies swapped[a] != swapped[b] by {
        assert(swapped[a] == (if a == j {
            prior[i]
        } else if a == i {
            prior[j]
        } else {
            prior[a]
        }));
        assert(swapped[b] == (if b == j {
            prior[i]
        } else if b == i {
            prior[j]
        } else {
            prior[b]
        }));
    }
}

/// After `k` steps the permutation still has length `n`, holds only
/// positions below `n`, and holds no position twice.
proof fn lemma_shuffle_prefix_permutes(n: nat, state0: u64, k: nat)
    requires
        n <= usize::MAX,
    ensures
        ({
            let shuffled = spec_shuffle_prefix(n, state0, k);
            &&& shuffled.0.len() == n
            &&& forall|a: int| 0 <= a < n ==> (#[trigger] shuffled.0[a]) < n
            &&& forall|a: int, b: int| 0 <= a < b < n ==> shuffled.0[a] != shuffled.0[b]
        }),
    decreases k,
{
    if k == 0 {
    } else {
        lemma_shuffle_prefix_permutes(n, state0, (k - 1) as nat);
        let prior = spec_shuffle_prefix(n, state0, (k - 1) as nat);
        let shuffled = spec_shuffle_prefix(n, state0, k);
        let i = k - 1;
        if 0 <= i < prior.0.len() {
            let draw = spec_mix64(prior.1.wrapping_add(STATE_INCREMENT)) as int;
            let j = i + (draw % (prior.0.len() - i));
            vstd::arithmetic::div_mod::lemma_mod_bound(draw, prior.0.len() - i);
            assert(0 <= j < n);
            assert(shuffled.0 == prior.0.update(i, prior.0[j]).update(j, prior.0[i]));
            lemma_swap_keeps_distinct(prior.0, shuffled.0, n, i, j);
        } else {
            assert(shuffled.0 == prior.0);
            assert(forall|a: int| 0 <= a < n ==> (#[trigger] shuffled.0[a]) < n);
            assert(forall|a: int, b: int| 0 <= a < b < n ==> shuffled.0[a] != shuffled.0[b]);
        }
    }
}

/// Exact-output mixing step, shared by seeding and drawing.
fn mix64(z0: u64) -> (mixed: u64)
    ensures
        mixed == spec_mix64(z0),
{
    let z1 = (z0 ^ (z0 >> 30u64)).wrapping_mul(0xBF58476D1CE4E5B9u64);
    let z2 = (z1 ^ (z1 >> 27u64)).wrapping_mul(0x94D049BB133111EBu64);
    z2 ^ (z2 >> 31u64)
}

/// Folds the seed bytes into the initial generator state.
fn seed_state(seed: &[u8]) -> (state: u64)
    ensures
        state == spec_seed_state(seed@),
{
    let mut state: u64 = SEED_FOLD_BASIS;
    let n = seed.len();
    for i in 0..n
        invariant
            n == seed@.len(),
            state == spec_seed_state(seed@.take(i as int)),
    {
        proof {
            assert(seed@.take(i + 1).drop_last() =~= seed@.take(i as int));
            assert(seed@.take(i + 1).last() == seed@[i as int]);
        }
        state = (state ^ (seed[i] as u64)).wrapping_mul(SEED_FOLD_PRIME);
    }
    proof {
        assert(seed@.take(n as int) =~= seed@);
    }
    state
}

/// Draws a committee of exactly `size` distinct members from `population`,
/// deterministically in `(population, size, seed)`: the generator seeded by
/// folding `seed` drives a partial shuffle without replacement, and the
/// first `size` drawn members form the committee. Fails with
/// `InsufficientPopulation` when `size` exceeds the population.
pub fn sample(population: &Vec<PublicKeyHash>, size: usize, seed: &[u8]) -> (committee: Result<
    Vec<PublicKeyHash>,
    SamplingError,
>)
    ensures
        size <= population@.len() ==> (committee matches Ok(c) && c@ == spec_sample(
            population@,
            size as nat,
            seed@,
        )),
        size > population@.len() ==> (committee matches Err(e) && e
            == SamplingError::InsufficientPopulation),
{
    let n = population.len();
    if size > n {
        return Err(SamplingError::InsufficientPopulation);
    }
    let mut state = seed_state(seed);
    let ghost state0 = state;

    let mut idx: Vec<usize> = Vec::new();
    for i in 0..n
        invariant
            idx@.len() == i,
            forall|a: int| 0 <= a < i ==> idx@[a] == a,
    {
        idx.push(i);
    }
    proof {
        assert(idx@ =~= Seq::new(n as nat, |i: int| i as usize));
    }

    for i in 0..size
        invariant
            n == population@.len(),
            size <= n,
            idx@.len() == n,
            forall|a: int| 0 <= a < n ==> (#[trigger] idx@[a]) < n,
            ({
                let shuffled = spec_shuffle_prefix(n as nat, state0, i as nat);
                idx@ == shuffled.0 && state == shuffled.1
            }),
    {
        let ghost prior_idx = idx@;
        let ghost prior_state = state;
        state = state.wrapping_add(STATE_INCREMENT);
        let draw = mix64(state);
        let range = n - i;
        let offset = (draw % (range as u64)) as usize;
        let j = i + offset;
        let at_i = idx[i];
        let at_j = idx[j];
        idx[i] = at_j;
        idx[j] = at_i;
        proof {
            let stepped = spec_swap_step(prior_idx, prior_state, i as int);
            assert(idx@ =~= stepped.0);
            assert(state == stepped.1);
        }
    }

    let mut committee: Vec<PublicKeyHash> = Vec::new();
    let ghost indices = idx@;
    for k in 0..size
        invariant
            n == population@.len(),
            size <= n,
            indices == idx@,
            idx@.len() == n,
            forall|a: int| 0 <= a < n ==> (#[trigger] idx@[a]) < n,
            committee@.len() == k,
            forall|t: int| 0 <= t < k ==> committee@[t] == population@[idx@[t] as int],
    {
        let member = idx[k];
        committee.push(PublicKeyHash { address: population[member].address.clone() });
    }
    proof {
        assert(committee@ =~= spec_sample(population@, size as nat, seed@));
    }
    Ok(committee)
}

/// The drawn committee has exactly `size` members, each drawn from the
/// population, and — provided the population holds no duplicate identities —
/// no member twice. Determinism needs no further statement: the committee
/// is defined as a function of `(population, size, seed)` alone.
pub proof fn lemma_sample_distinct_members(
    population: Seq<PublicKeyHash>,
    size: nat,
    seed: Seq<u8>,
)
    requires
        size <= population.len() <= usize::MAX,
        forall|a: int, b: int|
            0 <= a < b < population.len() ==> population[a]@ != population[b]@,
    ensures
        ({
            let indices = spec_shuffle_prefix(population.len(), spec_seed_state(seed), size).0;
            let committee = spec_sample(population, size, seed);
            &&& committee.len() == size
            &&& forall|k: int|
                0 <= k < size ==> (#[trigger] indices[k]) < population.len() && committee[k]
                    == population[indices[k] as int]
            &&& forall|a: int, b: int| 0 <= a < b < size ==> committee[a]@ != committee[b]@
        }),
{
    let indices = spec_shuffle_prefix(population.len(), spec_seed_state(seed), size).0;
    let committee = spec_sample(population, size, seed);
    lemma_shuffle_prefix_permutes(population.len(), spec_seed_state(seed), size);
    assert forall|a: int, b: int| 0 <= a < b < size implies committee[a]@ != committee[b]@ by {
        let ia = indices[a] as int;
        let ib = indices[b] as int;
        assert(indices[a] != indices[b]);
        assert(committee[a] == population[ia]);
        assert(committee[b] == population[ib]);
        if ia < ib {
            assert(population[ia]@ != population[ib]@);
        } else {
            assert(population[ib]@ != population[ia]@);
        }
    }
}

} // verus!
