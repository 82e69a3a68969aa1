//! Blockchain networks, and the ones among them that the provider serves.

use vstd::prelude::*;

verus! {

/// A blockchain network.
#[derive(Clone, Copy, Debug, PartialEq, Eq, Hash, Structural)]
pub enum Chain {
    Ethereum,
    Optimism,
    Bsc,
    Gnosis,
    Polygon,
    Fantom,
    Arbitrum,
    Avalanche,
    Goerli,
}

impl Chain {
    /// The provider's own numeric id for this network, where it serves it.
    pub open spec fn provider_id(self) -> Option<u32> {
        match self {
            Chain::Ethereum => Some(1u32),
            Chain::Bsc => Some(56u32),
            Chain::Gnosis => Some(100u32),
            Chain::Polygon => Some(137u32),
            _ => None,
        }
    }

    /// The variant's name, as its debug representation prints it.
    pub open spec fn name(self) -> Seq<char> {
        match self {
            Chain::Ethereum => "Ethereum"@,
            Chain::Optimism => "Optimism"@,
            Chain::Bsc => "Bsc"@,
            Chain::Gnosis => "Gnosis"@,
            Chain::Polygon => "Polygon"@,
            Chain::Fantom => "Fantom"@,
            Chain::Arbitrum => "Arbitrum"@,
            Chain::Avalanche => "Avalanche"@,
            Chain::Goerli => "Goerli"@,
        }
    }

    /// Looks the network up in the provider's table. A network that the
    /// provider does not serve is a miss.
    pub fn provider_chain_id(self) -> (id: Option<u32>)
        ensures
            id == self.provider_id(),
    {
        match self {
            Chain::Ethereum => Some(1u32),
            Chain::Bsc => Some(56u32),
            Chain::Gnosis => Some(100u32),
            Chain::Polygon => Some(137u32),
            _ => None,
        }
    }

    /// The variant's name as an owned string.
    pub fn debug_name(self) -> (s: String)
        ensures
            s@ == self.name(),
    {
        match self {
            Chain::Ethereum => "Ethereum".to_owned(),
            Chain::Optimism => "Optimism".to_owned(),
            Chain::Bsc => "Bsc".to_owned(),
            Chain::Gnosis => "Gnosis".to_owned(),
            Chain::Polygon => "Polygon".to_owned(),
            Chain::Fantom => "Fantom".to_owned(),
            Chain::Arbitrum => "Arbitrum".to_owned(),
            Chain::Avalanche => "Avalanche".to_owned(),
            Chain::Goerli => "Goerli".to_owned(),
        }
    }
}

/// The provider's table holds exactly four networks, under four different
/// ids.
pub proof fn lemma_provider_table(a: Chain, b: Chain)
    ensures
        a.provider_id() is Some <==> (a == Chain::Ethereum || a == Chain::Bsc || a == Chain::Gnosis
            || a == Chain::Polygon),
        a.provider_id() is Some && a.provider_id() == b.provider_id() ==> a == b,
{
}

} // verus!
