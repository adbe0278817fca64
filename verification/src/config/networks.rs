//! The supported Stellar networks and their fixed parameters.

use vstd::prelude::*;

use crate::table::TableKey;
use crate::text::{lowercase_of, same_text, to_lowercase};

verus! {

/// Supported Stellar networks.
#[derive(Clone, Copy, Debug, PartialEq, Eq, Structural)]
pub enum Network {
    /// Stellar testnet for development and testing
    Testnet,
    /// Stellar mainnet for production
    Mainnet,
    /// Stellar futurenet for experimental features
    Futurenet,
}

impl TableKey for Network {
    fn same_key(&self, other: &Self) -> (r: bool) {
        *self == *other
    }
}

/// The network's name, as [`Network::name`] gives it.
pub open spec fn name_of(n: Network) -> Seq<char> {
    match n {
        Network::Testnet => "testnet"@,
        Network::Mainnet => "mainnet"@,
        Network::Futurenet => "futurenet"@,
    }
}

/// The network whose name is exactly `s`, if any.
pub open spec fn network_named(s: Seq<char>) -> Option<Network> {
    if s == "testnet"@ {
        Some(Network::Testnet)
    } else if s == "mainnet"@ {
        Some(Network::Mainnet)
    } else if s == "futurenet"@ {
        Some(Network::Futurenet)
    } else {
        None
    }
}

/// The network named exactly `name` (already in lower case), if any.
pub fn network_from_lowercase(name: &str) -> (r: Option<Network>)
    ensures
        r == network_named(name@),
{
    if same_text(name, "testnet") {
        Some(Network::Testnet)
    } else if same_text(name, "mainnet") {
        Some(Network::Mainnet)
    } else if same_text(name, "futurenet") {
        Some(Network::Futurenet)
    } else {
        None
    }
}

impl Network {
    /// Get RPC endpoint URL for the network.
    pub fn rpc_url(&self) -> (r: &'static str)
        ensures
            r@ == (match *self {
                Network::Testnet => "https://soroban-testnet.stellar.org"@,
                Network::Mainnet => "https://soroban.stellar.org"@,
                Network::Futurenet => "https://rpc-futurenet.stellar.org"@,
            }),
    {
        match self {
            Network::Testnet => "https://soroban-testnet.stellar.org",
            Network::Mainnet => "https://soroban.stellar.org",
            Network::Futurenet => "https://rpc-futurenet.stellar.org",
        }
    }

    /// Get network passphrase for transaction signing.
    pub fn passphrase(&self) -> (r: &'static str)
        ensures
            r@ == (match *self {
                Network::Testnet => "Test SDF Network ; September 2015"@,
                Network::Mainnet => "Public Global Stellar Network ; September 2015"@,
                Network::Futurenet => "Test SDF Future Network ; October 2022"@,
            }),
    {
        match self {
            Network::Testnet => "Test SDF Network ; September 2015",
            Network::Mainnet => "Public Global Stellar Network ; September 2015",
            Network::Futurenet => "Test SDF Future Network ; October 2022",
        }
    }

    /// Get network name.
    pub fn name(&self) -> (r: &'static str)
        ensures
            r@ == name_of(*self),
    {
        match self {
            Network::Testnet => "testnet",
            Network::Mainnet => "mainnet",
            Network::Futurenet => "futurenet",
        }
    }

    /// Get network ID.
    pub fn network_id(&self) -> (r: u32)
        ensures
            r == (match *self {
                Network::Testnet => 0u32,
                Network::Mainnet => 1u32,
                Network::Futurenet => 2u32,
            }),
    {
        match self {
            Network::Testnet => 0,
            Network::Mainnet => 1,
            Network::Futurenet => 2,
        }
    }

    /// Parse a network from its name, in any letter case.
    pub fn from_str(s: &str) -> (r: Option<Self>)
        ensures
            r == network_named(lowercase_of(s@)),
    {
        let lowered = to_lowercase(s);
        network_from_lowercase(lowered.as_str())
    }
}

/// Each network is found again by its own name, and distinct networks have
/// distinct names and ids.
pub proof fn lemma_name_roundtrip(n: Network, m: Network)
    ensures
        network_named(name_of(n)) == Some(n),
        n != m ==> name_of(n) != name_of(m),
{
    reveal_strlit("testnet");
    reveal_strlit("mainnet");
    reveal_strlit("futurenet");
    assert("testnet"@ != "mainnet"@) by {
        assert("testnet"@[0] != "mainnet"@[0]);
    }
    assert("testnet"@ != "futurenet"@) by {
        assert("testnet"@[0] != "futurenet"@[0]);
    }
    assert("mainnet"@ != "futurenet"@) by {
        assert("mainnet"@[0] != "futurenet"@[0]);
    }
}

} // verus!
