//! The contract address deployed on each network.

use vstd::prelude::*;

use crate::config::networks::{name_of, Network};
use crate::table::Table;

verus! {

/// Contract addresses for different networks.
pub struct ContractAddresses {
    addresses: Table<Network, String>,
}

/// The entry `all` lists for `n`: its name and address, if it has one.
pub open spec fn entry_for(m: Map<Network, String>, n: Network) -> Seq<(Seq<char>, Seq<char>)> {
    if m.contains_key(n) {
        seq![(name_of(n), m[n]@)]
    } else {
        Seq::empty()
    }
}

/// Every network with an address, by name, testnet first, then mainnet,
/// then futurenet.
pub open spec fn listed(m: Map<Network, String>) -> Seq<(Seq<char>, Seq<char>)> {
    entry_for(m, Network::Testnet) + entry_for(m, Network::Mainnet) + entry_for(m, Network::Futurenet)
}

impl ContractAddresses {
    /// The address recorded for each network.
    pub closed spec fn address_map(&self) -> Map<Network, String> {
        self.addresses@
    }

    pub closed spec fn wf(&self) -> bool {
        self.addresses.wf()
    }

    /// Create a configuration with no addresses.
    pub fn new() -> (r: Self)
        ensures
            r.wf(),
            r.address_map() == Map::<Network, String>::empty(),
    {
        ContractAddresses { addresses: Table::new() }
    }

    /// Set the contract address for a network, replacing any earlier one.
    pub fn set(&mut self, network: &Network, address: String)
        requires
            old(self).wf(),
        ensures
            final(self).wf(),
            final(self).address_map() == old(self).address_map().insert(*network, address),
    {
        self.addresses.insert(*network, address);
    }

    /// Get the contract address for a network.
    pub fn get(&self, network: &Network) -> (r: Option<&str>)
        requires
            self.wf(),
        ensures
            match r {
                Some(s) => self.address_map().contains_key(*network) && s@ == self.address_map()[*network]@,
                None => !self.address_map().contains_key(*network),
            },
    {
        match self.addresses.get(network) {
            Some(a) => Some(a.as_str()),
            None => None,
        }
    }

    /// All addresses, each with the name of its network.
    pub fn all(&self) -> (r: Vec<(String, String)>)
        requires
            self.wf(),
        ensures
            r@.len() == listed(self.address_map()).len(),
            forall|i: int|
                0 <= i < r@.len() ==> (#[trigger] r@[i]).0@ == listed(self.address_map())[i].0 && r@[i].1@
                    == listed(self.address_map())[i].1,
    {
        let mut out: Vec<(String, String)> = Vec::new();
        let nets = [Network::Testnet, Network::Mainnet, Network::Futurenet];
        let ghost m = self.address_map();
        let mut k: usize = 0;
        while k < 3
            invariant
                0 <= k <= 3,
                self.wf(),
                m == self.address_map(),
                nets@ == seq![Network::Testnet, Network::Mainnet, Network::Futurenet],
                out@.len() == self.prefix_listed(k as int).len(),
                forall|i: int|
                    0 <= i < out@.len() ==> (#[trigger] out@[i]).0@ == self.prefix_listed(k as int)[i].0
                        && out@[i].1@ == self.prefix_listed(k as int)[i].1,
            decreases 3 - k,
        {
            let n = nets[k];
            match self.addresses.get(&n) {
                Some(a) => {
                    out.push((n.name().to_owned(), a.clone()));
                },
                None => {},
            }
            proof {
                assert(self.prefix_listed(k + 1) == self.prefix_listed(k as int) + entry_for(m, n));
            }
            k = k + 1;
        }
        proof {
            assert(self.prefix_listed(3) == listed(m));
        }
        out
    }

    /// The entries [`ContractAddresses::all`] lists for the first `k`
    /// networks in its order.
    pub open spec fn prefix_listed(&self, k: int) -> Seq<(Seq<char>, Seq<char>)> {
        let m = self.address_map();
        if k <= 0 {
            Seq::empty()
        } else if k == 1 {
            entry_for(m, Network::Testnet)
        } else if k == 2 {
            entry_for(m, Network::Testnet) + entry_for(m, Network::Mainnet)
        } else {
            listed(m)
        }
    }
}

impl Default for ContractAddresses {
    fn default() -> (r: Self)
        ensures
            r.wf(),
            r.address_map() == Map::<Network, String>::empty(),
    {
        Self::new()
    }
}

/// An address set for a network is what a later read of that network
/// gives, and setting it leaves every other network's address as it was.
pub proof fn lemma_get_after_set(m: Map<Network, String>, n: Network, address: String, other: Network)
    ensures
        m.insert(n, address).contains_key(n),
        m.insert(n, address)[n]@ == address@,
        other != n ==> (m.insert(n, address).contains_key(other) == m.contains_key(other)),
        other != n && m.contains_key(other) ==> m.insert(n, address)[other] == m[other],
{
}

} // verus!
