use vstd::prelude::*;

use crate::chain::{Environment, Epoch};

verus! {

/// Epoch of the first community-coordinated hard fork
/// (22 January 2021 @ 09:00:00 UTC).
pub const FIRST_HARD_FORK: Epoch = 192000;

/// Epoch of the second community-coordinated hard fork
/// (28 April 2021 @ 09:00:00 UTC).
pub const SECOND_HARD_FORK: Epoch = 376320;

/// Whether `epoch` is at or past the first hard fork. Pre-agreed
/// network-wide, so it only ever applies on `Mainnet`.
pub fn after_first_hard_fork(epoch: Epoch, environment: Environment) -> (after: bool)
    ensures
        after == (environment == Environment::Mainnet && epoch >= FIRST_HARD_FORK),
{
    match environment {
        Environment::Mainnet => epoch >= FIRST_HARD_FORK,
        Environment::Testnet | Environment::Development => false,
    }
}

/// Whether `epoch` is at or past the second hard fork. Pre-agreed
/// network-wide, so it only ever applies on `Mainnet`.
pub fn after_second_hard_fork(epoch: Epoch, environment: Environment) -> (after: bool)
    ensures
        after == (environment == Environment::Mainnet && epoch >= SECOND_HARD_FORK),
{
    match environment {
        Environment::Mainnet => epoch >= SECOND_HARD_FORK,
        Environment::Testnet | Environment::Development => false,
    }
}

} // verus!
