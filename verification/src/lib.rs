//! Protocol-governance and committee-consensus core of a blockchain node.
//!
//! The crate covers three concerns:
//! - deterministic selection of a bounded-size signing committee for each
//!   superblock checkpoint, with a hardcoded emergency fallback for a fixed
//!   historical range of superblock indices;
//! - the two-thirds supermajority test applied to a committee's tally;
//! - tracking and activation of backward-incompatible protocol upgrades
//!   (WIPs) voted bit by bit in block version bitmaps over sliding windows.

pub mod activation;
pub mod chain;
pub mod emergency;
pub mod engine;
pub mod forks;
pub mod sampler;
pub mod tapi;
pub mod threshold;

pub use activation::{ActivationMap, ActiveWips};
pub use chain::{Environment, Epoch, PublicKeyHash};
pub use engine::{is_bit_n_activated, TapiEngine};
pub use emergency::in_emergency_period;
pub use forks::{after_first_hard_fork, after_second_hard_fork, FIRST_HARD_FORK, SECOND_HARD_FORK};
pub use sampler::{sample, SamplingError};
pub use tapi::{BitTapiCounter, BitVotesCounter};
pub use threshold::{meets_supermajority, spec_meets_supermajority};
