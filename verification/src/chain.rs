use vstd::prelude::*;

verus! {

/// Number of a fixed-duration time slot. Epochs increase monotonically and
/// are the unit of every voting window in this crate.
pub type Epoch = u32;

/// Network environment a node runs in. Consensus rules that were agreed
/// network-wide only apply on the primary deployment network (`Mainnet`);
/// the other environments are used for testing and local development.
#[derive(Clone, Copy, Debug, PartialEq, Eq, Structural)]
pub enum Environment {
    /// The primary deployment network.
    Mainnet,
    /// The public test network.
    Testnet,
    /// A local development network.
    Development,
}

/// Identity of a committee member, carried as its address string.
///
/// The view of a `PublicKeyHash` is the character sequence of its address;
/// two identities are the same exactly when their addresses are.
#[derive(Clone, Debug, PartialEq, Eq, Hash)]
pub struct PublicKeyHash {
    /// Address that identifies this key hash.
    pub address: String,
}

impl View for PublicKeyHash {
    type V = Seq<char>;

    open spec fn view(&self) -> Seq<char> {
        self.address@
    }
}

impl PublicKeyHash {
    /// Builds an identity from its address string.
    pub fn from_address(address: String) -> (pkh: PublicKeyHash)
        ensures
            pkh@ == address@,
    {
        PublicKeyHash { address }
    }
}

} // verus!
