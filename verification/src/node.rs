//! Nodes of a swarm, as the swarm's rules see them.

use vstd::prelude::*;
use crate::network::NetworkConfig;
use crate::version::Version;

verus! {

/// The identity of a node on the network: 256 bits, here as two halves.
/// A validator has it from genesis, a full node from its creation, and it
/// never changes.
#[derive(Clone, Copy, Debug, PartialEq, Eq, Hash, Structural)]
pub struct PeerId {
    pub hi: u128,
    pub lo: u128,
}

/// What a node does in the swarm.
#[derive(Clone, Copy, Debug, PartialEq, Eq, Structural)]
pub enum NodeRole {
    /// Takes part in consensus.
    Validator,
    /// Follows the ledger on behalf of one validator, under its identity.
    ValidatorFullNode,
    /// Follows the ledger under an identity of its own.
    PublicFullNode,
}

/// The record that a swarm keeps of one node: its name, its identity, the
/// software it runs, its role, and the networks of its configuration.
#[derive(Clone, Debug)]
pub struct LocalNode {
    pub name: String,
    pub peer_id: PeerId,
    pub version: Version,
    pub role: NodeRole,
    pub networks: Vec<NetworkConfig>,
}

/// What one probe of a node's health came to.
#[derive(Clone, Debug)]
pub enum HealthCheck {
    /// The node answered and is ready.
    Healthy,
    /// The process has exited or was never started.
    NotRunning(String),
    /// The probe failed in a way that tells nothing about the node.
    Unknown(String),
    /// The node was reached and is not ready yet.
    Failure(String),
}

impl HealthCheck {
    /// Whether the outcome ends supervision: the node is not coming up.
    pub open spec fn is_fatal(&self) -> bool {
        *self is NotRunning || *self is Unknown
    }
}

impl LocalNode {
    /// The record of a node.
    pub fn new(
        name: String,
        peer_id: PeerId,
        version: Version,
        role: NodeRole,
        networks: Vec<NetworkConfig>,
    ) -> (node: LocalNode)
        ensures
            node == (LocalNode { name, peer_id, version, role, networks }),
    {
        LocalNode { name, peer_id, version, role, networks }
    }

    /// The node's name.
    pub fn name(&self) -> (name: &str)
        ensures
            name@ == self.name@,
    {
        self.name.as_str()
    }

    /// The node's identity.
    pub fn peer_id(&self) -> (id: PeerId)
        ensures
            id == self.peer_id,
    {
        self.peer_id
    }

    /// The version that the node runs.
    pub fn version(&self) -> (version: &Version)
        ensures
            *version == self.version,
    {
        &self.version
    }

    /// The node's role.
    pub fn role(&self) -> (role: NodeRole)
        ensures
            role == self.role,
    {
        self.role
    }

    /// The networks of the node's configuration.
    pub fn networks(&self) -> (networks: &Vec<NetworkConfig>)
        ensures
            *networks == self.networks,
    {
        &self.networks
    }

    /// Rebinds the node to other software.  All else stays.
    pub fn upgrade(&mut self, version: Version)
        ensures
            *final(self) == (LocalNode { version, ..*old(self) }),
    {
        self.version = version;
    }
}

} // verus!
