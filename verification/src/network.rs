//! Network identities of a node.
//!
//! A node's configuration lists the networks that it is reachable on, each
//! tagged with its class.  A validator is generated with one public network
//! among them; the swarm takes that one out and keeps it for the full node
//! that will stand in front of the validator.  The validator is left with
//! no public network.

use vstd::prelude::*;

verus! {

/// The class of a network.
#[derive(Clone, Copy, Debug, PartialEq, Eq, Structural)]
pub enum NetworkId {
    /// The network among validators.
    Validator,
    /// The network between a validator and its full node.
    Vfn,
    /// The network open to everyone.
    Public,
}

/// How a node is reached on one network: the class of the network, and the
/// configuration document for it, which is carried along unread.
#[derive(Clone, Debug)]
pub struct NetworkConfig {
    pub network_id: NetworkId,
    pub document: String,
}

/// The first place at or behind `from` at which `networks` has a public
/// network; the length of `networks` if there is none.
pub open spec fn public_from(networks: Seq<NetworkConfig>, from: int) -> int
    decreases networks.len() - from,
{
    if from < 0 || from >= networks.len() {
        networks.len() as int
    } else if networks[from].network_id == NetworkId::Public {
        from
    } else {
        public_from(networks, from + 1)
    }
}

/// The place of the first public network in `networks`, or its length.
pub open spec fn public_place(networks: Seq<NetworkConfig>) -> int {
    public_from(networks, 0)
}

/// Whether `networks` has a public network.
pub open spec fn has_public(networks: Seq<NetworkConfig>) -> bool {
    public_place(networks) < networks.len()
}

/// `public_from` finds a public network, the first one from where it
/// starts, or runs to the end.
pub proof fn lemma_public_from(networks: Seq<NetworkConfig>, from: int)
    requires
        0 <= from <= networks.len(),
    ensures
        from <= public_from(networks, from) <= networks.len(),
        public_from(networks, from) < networks.len() ==> networks[public_from(
            networks,
            from,
        )].network_id == NetworkId::Public,
        forall|i: int|
            from <= i < public_from(networks, from) ==> (#[trigger] networks[i]).network_id
                != NetworkId::Public,
    decreases networks.len() - from,
{
    if from < networks.len() && networks[from].network_id != NetworkId::Public {
        lemma_public_from(networks, from + 1);
    }
}

impl NetworkConfig {
    /// A configuration of the given class.
    pub fn new(network_id: NetworkId, document: String) -> (config: NetworkConfig)
        ensures
            config == (NetworkConfig { network_id, document }),
    {
        NetworkConfig { network_id, document }
    }

    /// A copy of the configuration.
    pub fn duplicate(&self) -> (config: NetworkConfig)
        ensures
            config == *self,
    {
        NetworkConfig { network_id: self.network_id, document: self.document.clone() }
    }
}

/// Whether none of `networks` is public.
pub open spec fn no_public(networks: Seq<NetworkConfig>) -> bool {
    forall|k: int|
        0 <= k < networks.len() ==> (#[trigger] networks[k]).network_id != NetworkId::Public
}

/// Why the public network cannot be taken out of a list of networks.
#[derive(Clone, Copy, Debug, PartialEq, Eq, Structural)]
pub enum PublicNetworkFault {
    /// There is no public network.
    Missing,
    /// There is more than one public network.
    Several,
}

/// What keeps the public network of `networks` from being taken out, if
/// anything: there is none, or there is one more behind the first.
pub open spec fn public_fault(networks: Seq<NetworkConfig>) -> Option<PublicNetworkFault> {
    if !has_public(networks) {
        Some(PublicNetworkFault::Missing)
    } else if !no_public(networks.remove(public_place(networks))) {
        Some(PublicNetworkFault::Several)
    } else {
        None
    }
}

/// Takes the public network out of `networks` and hands it back.  The other
/// networks keep their order, and none of them is public.  Where there is
/// no public network, or more than one, nothing changes.
pub fn detach_public_network(networks: &mut Vec<NetworkConfig>) -> (detached: Result<
    NetworkConfig,
    PublicNetworkFault,
>)
    ensures
        detached matches Err(fault) ==> public_fault(old(networks)@) == Some(fault)
            && final(networks)@ == old(networks)@,
        detached matches Ok(network) ==> {
            &&& public_fault(old(networks)@) is None
            &&& network == old(networks)@[public_place(old(networks)@)]
            &&& final(networks)@ == old(networks)@.remove(public_place(old(networks)@))
            &&& no_public(final(networks)@)
        },
{
    let count: usize = networks.len();
    let mut place: usize = 0;
    while place < count && !(networks[place].network_id == NetworkId::Public)
        invariant
            place <= count,
            count == networks@.len(),
            *networks == *old(networks),
            public_from(networks@, place as int) == public_place(networks@),
        decreases count - place,
    {
        place = place + 1;
    }
    if place == count {
        return Err(PublicNetworkFault::Missing);
    }
    let mut other: usize = place + 1;
    while other < count
        invariant
            place < other <= count,
            count == networks@.len(),
            *networks == *old(networks),
            place == public_place(networks@),
            forall|k: int| place < k < other ==> (#[trigger] networks@[k]).network_id != NetworkId::Public,
        decreases count - other,
    {
        if networks[other].network_id == NetworkId::Public {
            proof {
                let rest = networks@.remove(place as int);
                assert(rest[other - 1] == networks@[other as int]);
            }
            return Err(PublicNetworkFault::Several);
        }
        other = other + 1;
    }
    proof {
        lemma_public_from(networks@, 0);
        let rest = networks@.remove(place as int);
        assert forall|k: int| 0 <= k < rest.len() implies (#[trigger] rest[k]).network_id
            != NetworkId::Public by {
            if k < place {
                assert(rest[k] == networks@[k]);
            } else {
                assert(rest[k] == networks@[k + 1]);
            }
        }
    }
    let detached = networks.remove(place);
    Ok(detached)
}

} // verus!
