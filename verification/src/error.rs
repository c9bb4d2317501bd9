//! What can go wrong in the life of a swarm.

use vstd::prelude::*;
use crate::node::PeerId;
use crate::version::Version;

verus! {

/// A failure of a swarm operation.  Each carries the node, version or id
/// that it is about.
#[derive(Clone, Debug, PartialEq, Eq)]
pub enum SwarmError {
    /// A swarm needs at least one validator.
    NoValidators,
    /// No version was asked for and none is known.
    NoVersions,
    /// Two validators came with the same identity.
    DuplicateValidator(PeerId),
    /// A validator came without a public network.
    MissingPublicNetwork(PeerId),
    /// A validator came with more than one public network.
    SeveralPublicNetworks(PeerId),
    /// A node has a name that the swarm has yet to hand out.
    ReservedName { name: String },
    /// The swarm was launched before.
    AlreadyLaunched,
    /// A node could not be started.
    StartFailed { name: String, reason: String },
    /// A node was found not to be running while the swarm waited for it.
    NodeNotRunning { name: String, reason: String },
    /// Not every validator became healthy within the attempts allowed.
    LaunchTimedOut,
    /// The nodes did not find one another.
    ConnectivityFailed { reason: String },
    /// The nodes did not make progress.
    LivenessFailed { reason: String },
    /// Something was reported that the swarm was not waiting for.
    UnexpectedEvent,
    /// There is no validator with this identity.
    NoValidator(PeerId),
    /// No public network is on record for this validator.
    NoPublicNetwork(PeerId),
    /// A full node with this identity is registered already.
    FullnodeExists(PeerId),
    /// The version is not one that the swarm knows.
    InvalidVersion(Version),
    /// There is no node with this identity.
    InvalidId(PeerId),
    /// A validator's full node came up with another identity than the
    /// validator's.
    IdentityMismatch { expected: PeerId, actual: PeerId },
    /// A full node that is to have an identity of its own came up with the
    /// identity of a validator.
    IdentityTaken(PeerId),
    /// The names for new nodes have run out.
    TooManyNodes,
}

} // verus!
