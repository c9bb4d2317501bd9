//! The swarm: validators, their full nodes, and what is known about them.
//!
//! A swarm is composed from what genesis produced, launched once, and
//! changed afterwards by adding and removing full nodes and by upgrading
//! validators.  The functions here decide; starting and stopping processes
//! is done by the caller, with what these functions hand out.

use vstd::prelude::*;
use crate::directory::SwarmDirectory;
use crate::error::SwarmError;
use crate::guard::ActiveNodesGuard;
use crate::keys::{hex_encode, hex_text};
use crate::launch::{Supervision, SupervisionView, Watched, LAUNCH_TIMEOUT_MILLIS};
use crate::names::{name_number, decimal, node_name, parse_name, lemma_name_of_number};
use crate::order::{is_stable_order, stable_order, in_order, lemma_order_ascends, lemma_order_ignores_arrangement};
use crate::network::{
    NetworkConfig, PublicNetworkFault, no_public, public_fault, public_place, detach_public_network,
};
use crate::node::{LocalNode, NodeRole, PeerId};
use crate::peer_map::{PeerMap, has_key, key_index, value_of, without_key, distinct_keys};
use crate::version::{Version, knows_version, is_known, latest, version_before};

verus! {

/// The chain id of a test network.
pub const TEST_CHAIN_ID: u8 = 4;

/// What genesis produced for the whole network.  It does not change.
#[derive(Clone, Debug)]
pub struct GenesisArtifacts {
    /// The key of the root account, which signs administrative transactions.
    pub root_key: Vec<u8>,
    /// The genesis transaction, encoded.
    pub genesis: Vec<u8>,
    /// The waypoint that binds the genesis state, as text.
    pub waypoint: String,
}

/// What genesis produced for one validator.
#[derive(Clone, Debug)]
pub struct ValidatorSetup {
    pub name: String,
    pub peer_id: PeerId,
    /// The networks on which the validator serves full nodes.
    pub full_node_networks: Vec<NetworkConfig>,
}

/// A local swarm.
#[derive(Debug)]
pub struct LocalSwarm {
    node_name_counter: u64,
    genesis: Vec<u8>,
    genesis_waypoint: String,
    versions: Vec<Version>,
    validators: PeerMap<LocalNode>,
    fullnodes: PeerMap<LocalNode>,
    public_networks: PeerMap<NetworkConfig>,
    dir: SwarmDirectory,
    chain_id: u8,
    root_key: Vec<u8>,
    launched: bool,
    guard: ActiveNodesGuard,
}

/// A swarm as contracts see it.
pub struct SwarmView {
    /// The number that the next new node is named by.
    pub node_name_counter: u64,
    pub genesis: Seq<u8>,
    pub genesis_waypoint: Seq<char>,
    /// The versions that nodes of this swarm can run.
    pub versions: Seq<Version>,
    pub validators: Seq<(PeerId, LocalNode)>,
    pub fullnodes: Seq<(PeerId, LocalNode)>,
    /// The public networks taken from the validators, by validator.
    pub public_networks: Seq<(PeerId, NetworkConfig)>,
    pub dir: SwarmDirectory,
    pub chain_id: u8,
    pub root_key: Seq<u8>,
    pub launched: bool,
    /// The node slots that the swarm holds on its host.
    pub held_slots: nat,
}

/// Whether every entry is filed under the identity of its node.
pub open spec fn keyed_by_identity(nodes: Seq<(PeerId, LocalNode)>) -> bool {
    forall|i: int| 0 <= i < nodes.len() ==> (#[trigger] nodes[i]).0 == nodes[i].1.peer_id
}

/// Whether every numbered name among `nodes` has a number below `counter`:
/// none of them is a name that is yet to be handed out.
pub open spec fn names_below(nodes: Seq<(PeerId, LocalNode)>, counter: int) -> bool {
    forall|i: int|
        0 <= i < nodes.len() ==> (name_number((#[trigger] nodes[i]).1.name@) matches Some(number)
            ==> number < counter)
}

/// Whether no node of `nodes` has the name `name`.
pub open spec fn name_unused(nodes: Seq<(PeerId, LocalNode)>, name: Seq<char>) -> bool {
    forall|i: int| 0 <= i < nodes.len() ==> (#[trigger] nodes[i]).1.name@ != name
}

impl SwarmView {
    /// What holds of every swarm: no identity occurs twice among the
    /// validators, among the full nodes or among the public networks on
    /// record; every node is filed under its own identity; the validators
    /// are validators and the full nodes are not; a full node is the full
    /// node of a validator exactly if it has a validator's identity; no
    /// validator has a public network left; and no node has a name that is
    /// yet to be handed out.
    pub open spec fn wf(self) -> bool {
        &&& distinct_keys(self.validators)
        &&& distinct_keys(self.fullnodes)
        &&& distinct_keys(self.public_networks)
        &&& keyed_by_identity(self.validators)
        &&& keyed_by_identity(self.fullnodes)
        &&& forall|i: int|
            0 <= i < self.validators.len() ==> (#[trigger] self.validators[i]).1.role
                == NodeRole::Validator
        &&& forall|i: int|
            0 <= i < self.fullnodes.len() ==> (#[trigger] self.fullnodes[i]).1.role
                != NodeRole::Validator
        &&& forall|i: int|
            0 <= i < self.fullnodes.len() ==> ((#[trigger] self.fullnodes[i]).1.role
                == NodeRole::ValidatorFullNode <==> has_key(self.validators, self.fullnodes[i].0))
        &&& forall|i: int|
            0 <= i < self.validators.len() ==> no_public((#[trigger] self.validators[i]).1.networks@)
        &&& names_below(self.validators, self.node_name_counter as int)
        &&& names_below(self.fullnodes, self.node_name_counter as int)
    }
}

/// Whether `node` is the record of the validator that `setup` describes,
/// running `version`: the validator's networks but for the public one,
/// which is taken from it, so that none of those left is public.
pub open spec fn is_validator_record(node: LocalNode, setup: ValidatorSetup, version: Version) -> bool {
    &&& node.name == setup.name
    &&& node.peer_id == setup.peer_id
    &&& node.version == version
    &&& node.role == NodeRole::Validator
    &&& node.networks@ == setup.full_node_networks@.remove(public_place(setup.full_node_networks@))
    &&& no_public(node.networks@)
}

/// Whether `swarm` is what is composed of the validators `setups`, all
/// running `version`: a node for each of them, in their order, and the
/// public network of each on record under its identity; no full nodes; not
/// launched; new nodes named from the number of validators on.
pub open spec fn is_composed_of(swarm: SwarmView, setups: Seq<ValidatorSetup>, version: Version) -> bool {
    &&& swarm.validators.len() == setups.len()
    &&& swarm.public_networks.len() == setups.len()
    &&& forall|i: int|
        0 <= i < setups.len() ==> is_validator_record(
            (#[trigger] swarm.validators[i]).1,
            setups[i],
            version,
        )
    &&& forall|i: int|
        0 <= i < setups.len() ==> #[trigger] swarm.public_networks[i] == (
            setups[i].peer_id,
            setups[i].full_node_networks@[public_place(setups[i].full_node_networks@)],
        )
    &&& swarm.fullnodes.len() == 0
    &&& swarm.node_name_counter == setups.len()
    &&& !swarm.launched
}

/// What is wrong with the validator at place `i` of `setups`, if anything:
/// its identity is that of an earlier one; it has no public network, or
/// more than one; or its name is one that a later node will get, the names
/// of later nodes being numbered from the number of validators on.
pub open spec fn setup_fault(setups: Seq<ValidatorSetup>, i: int) -> Option<SwarmError> {
    if exists|j: int| 0 <= j < i && (#[trigger] setups[j]).peer_id == setups[i].peer_id {
        Some(SwarmError::DuplicateValidator(setups[i].peer_id))
    } else if public_fault(setups[i].full_node_networks@) == Some(PublicNetworkFault::Missing) {
        Some(SwarmError::MissingPublicNetwork(setups[i].peer_id))
    } else if public_fault(setups[i].full_node_networks@) == Some(PublicNetworkFault::Several) {
        Some(SwarmError::SeveralPublicNetworks(setups[i].peer_id))
    } else if name_number(setups[i].name@) matches Some(number) && number >= setups.len() {
        Some(SwarmError::ReservedName { name: setups[i].name })
    } else {
        None
    }
}

/// The first fault among the validators at and behind place `from`.
pub open spec fn first_fault(setups: Seq<ValidatorSetup>, from: int) -> Option<SwarmError>
    decreases setups.len() - from,
{
    if from < 0 || from >= setups.len() {
        None
    } else if setup_fault(setups, from) is Some {
        setup_fault(setups, from)
    } else {
        first_fault(setups, from + 1)
    }
}

/// Whether `version` may be the one that `initial_version` picks: the one
/// asked for, if the swarm knows it, or else a newest of the known ones.
pub open spec fn is_initial_version(
    versions: Seq<Version>,
    requested: Option<Version>,
    version: Version,
) -> bool {
    match requested {
        Some(asked) => version == asked && knows_version(versions, asked),
        None => exists|i: int|
            0 <= i < versions.len() && version == #[trigger] versions[i] && forall|j: int|
                0 <= j < versions.len() ==> !version_before(versions[i], #[trigger] versions[j]),
    }
}

/// Why no initial version can be picked, if none can.
pub open spec fn version_fault(versions: Seq<Version>, requested: Option<Version>) -> Option<
    SwarmError,
> {
    match requested {
        Some(asked) => if knows_version(versions, asked) {
            None
        } else {
            Some(SwarmError::InvalidVersion(asked))
        },
        None => if versions.len() == 0 {
            Some(SwarmError::NoVersions)
        } else {
            None
        },
    }
}

/// Why no swarm can be composed of these parts, if none can: the first of
/// no validators, no initial version, and a fault of a validator.
pub open spec fn build_fault(
    setups: Seq<ValidatorSetup>,
    versions: Seq<Version>,
    requested: Option<Version>,
) -> Option<SwarmError> {
    if setups.len() == 0 {
        Some(SwarmError::NoValidators)
    } else if version_fault(versions, requested) is Some {
        version_fault(versions, requested)
    } else {
        first_fault(setups, 0)
    }
}

/// The version that the nodes of a new swarm start with: the one asked
/// for, which must be known, or else the newest known one.
pub fn initial_version(versions: &Vec<Version>, requested: Option<Version>) -> (picked: Result<
    Version,
    SwarmError,
>)
    ensures
        picked matches Ok(version) ==> version_fault(versions@, requested) is None
            && is_initial_version(versions@, requested, version),
        picked matches Err(e) ==> version_fault(versions@, requested) == Some(e),
{
    match requested {
        Some(asked) => {
            if is_known(versions, &asked) {
                Ok(asked)
            } else {
                Err(SwarmError::InvalidVersion(asked))
            }
        },
        None => match latest(versions) {
            Some(i) => Ok(versions[i].duplicate()),
            None => Err(SwarmError::NoVersions),
        },
    }
}

/// A copy of a list of networks.
fn copy_networks(networks: &Vec<NetworkConfig>) -> (copy: Vec<NetworkConfig>)
    ensures
        copy@ == networks@,
{
    let mut copy: Vec<NetworkConfig> = Vec::new();
    let mut i: usize = 0;
    while i < networks.len()
        invariant
            i <= networks.len(),
            copy@ == networks@.subrange(0, i as int),
        decreases networks.len() - i,
    {
        copy.push(networks[i].duplicate());
        assert(copy@ =~= networks@.subrange(0, i + 1));
        i = i + 1;
    }
    assert(copy@ =~= networks@);
    copy
}

/// A copy of a list of bytes.
fn copy_bytes(bytes: &Vec<u8>) -> (copy: Vec<u8>)
    ensures
        copy@ == bytes@,
{
    let mut copy: Vec<u8> = Vec::new();
    let mut i: usize = 0;
    while i < bytes.len()
        invariant
            i <= bytes.len(),
            copy@ == bytes@.subrange(0, i as int),
        decreases bytes.len() - i,
    {
        copy.push(bytes[i]);
        assert(copy@ =~= bytes@.subrange(0, i + 1));
        i = i + 1;
    }
    assert(copy@ =~= bytes@);
    copy
}

/// A fault at place `i`, with none before it, is the first fault.
proof fn lemma_first_fault_at(setups: Seq<ValidatorSetup>, from: int, i: int)
    requires
        0 <= from <= i < setups.len(),
        forall|k: int| from <= k < i ==> setup_fault(setups, k) is None,
        setup_fault(setups, i) is Some,
    ensures
        first_fault(setups, from) == setup_fault(setups, i),
    decreases i - from,
{
    if from < i {
        lemma_first_fault_at(setups, from + 1, i);
    }
}

/// Without a fault up to the end there is no first fault.
proof fn lemma_no_first_fault(setups: Seq<ValidatorSetup>, from: int)
    requires
        0 <= from <= setups.len(),
        forall|k: int| from <= k < setups.len() ==> setup_fault(setups, k) is None,
    ensures
        first_fault(setups, from) is None,
    decreases setups.len() - from,
{
    if from < setups.len() {
        lemma_no_first_fault(setups, from + 1);
    }
}

/// What is left of a swarm that was taken apart.
#[derive(Debug)]
pub struct Teardown {
    /// The node slots that the swarm held, to be released.
    pub guard: ActiveNodesGuard,
    /// The directory of the swarm.
    pub dir: SwarmDirectory,
    /// Where the logs are, if the swarm ended in a failure.
    pub logs: Option<String>,
}

/// What a new full node is to be made of.  The swarm hands it out when it
/// has agreed to the node; the caller creates and starts the node and then
/// has it registered.
#[derive(Clone, Debug)]
pub struct FullnodePlan {
    /// The name of the new node.
    pub name: String,
    /// The version that it runs.
    pub version: Version,
    /// The validator that it stands in front of, if it is to be the full
    /// node of one: it must come up with that validator's identity.
    pub validator: Option<PeerId>,
    /// The public network of that validator, which the node takes over.
    pub public_network: Option<NetworkConfig>,
}

impl FullnodePlan {
    /// The role of the node that the plan is for.
    pub open spec fn role(&self) -> NodeRole {
        if self.validator is Some {
            NodeRole::ValidatorFullNode
        } else {
            NodeRole::PublicFullNode
        }
    }

    /// The networks of the node that the plan is for.
    pub open spec fn networks(&self) -> Seq<NetworkConfig> {
        match self.public_network {
            Some(network) => seq![network],
            None => Seq::<NetworkConfig>::empty(),
        }
    }
}

/// Whether `node` is the record of the full node that was made after `plan`
/// and came up as `peer_id`.
pub open spec fn is_fullnode_record(node: LocalNode, plan: FullnodePlan, peer_id: PeerId) -> bool {
    &&& node.name == plan.name
    &&& node.peer_id == peer_id
    &&& node.version == plan.version
    &&& node.role == plan.role()
    &&& node.networks@ == plan.networks()
}

/// Why no new node can be named, if none can: its version is not known, or
/// the numbers that a name can stand for have run out.
pub open spec fn naming_fault(swarm: SwarmView, version: Version) -> Option<SwarmError> {
    if !knows_version(swarm.versions, version) {
        Some(SwarmError::InvalidVersion(version))
    } else if swarm.node_name_counter > i32::MAX {
        Some(SwarmError::TooManyNodes)
    } else {
        None
    }
}

/// Why validator `id` cannot get a full node, if it cannot: there is no
/// such validator, no public network is on record for it, or it has its
/// full node already.
pub open spec fn validator_fullnode_fault(swarm: SwarmView, version: Version, id: PeerId) -> Option<
    SwarmError,
> {
    if !has_key(swarm.validators, id) {
        Some(SwarmError::NoValidator(id))
    } else if !has_key(swarm.public_networks, id) {
        Some(SwarmError::NoPublicNetwork(id))
    } else if has_key(swarm.fullnodes, id) {
        Some(SwarmError::FullnodeExists(id))
    } else {
        naming_fault(swarm, version)
    }
}

/// Why the node made after `plan` cannot be registered as `peer_id`, if it
/// cannot.  The full node of a validator must have that validator's
/// identity, and the validator must be one of the swarm.  A full node with
/// an identity of its own must not have the identity of a validator.  No
/// full node may be registered under the identity already.  And the name
/// must not be one that the swarm has yet to hand out.
pub open spec fn registration_fault(swarm: SwarmView, plan: FullnodePlan, peer_id: PeerId) -> Option<
    SwarmError,
> {
    if plan.validator is Some && plan.validator != Some(peer_id) {
        Some(SwarmError::IdentityMismatch { expected: plan.validator->0, actual: peer_id })
    } else if plan.validator is Some && !has_key(swarm.validators, peer_id) {
        Some(SwarmError::NoValidator(peer_id))
    } else if plan.validator is None && has_key(swarm.validators, peer_id) {
        Some(SwarmError::IdentityTaken(peer_id))
    } else if has_key(swarm.fullnodes, peer_id) {
        Some(SwarmError::FullnodeExists(peer_id))
    } else if name_number(plan.name@) matches Some(number) && number >= swarm.node_name_counter {
        Some(SwarmError::ReservedName { name: plan.name })
    } else {
        None
    }
}

/// Whether swarm `after` is swarm `before` with the full node that was made
/// after `plan` and came up as `peer_id` registered: its record stands
/// behind the full nodes that were there, and nothing else has changed.
pub open spec fn is_registration(
    before: SwarmView,
    after: SwarmView,
    plan: FullnodePlan,
    peer_id: PeerId,
) -> bool {
    &&& after.fullnodes.len() == before.fullnodes.len() + 1
    &&& after.fullnodes.drop_last() == before.fullnodes
    &&& after.fullnodes.last().0 == peer_id
    &&& is_fullnode_record(after.fullnodes.last().1, plan, peer_id)
    &&& after == (SwarmView { fullnodes: after.fullnodes, ..before })
}

/// Why validator `id` cannot be upgraded to `version`, if it cannot.
pub open spec fn upgrade_fault(swarm: SwarmView, id: PeerId, version: Version) -> Option<SwarmError> {
    if !knows_version(swarm.versions, version) {
        Some(SwarmError::InvalidVersion(version))
    } else if !has_key(swarm.validators, id) {
        Some(SwarmError::InvalidId(id))
    } else {
        None
    }
}

/// The validators as supervision watches them: by identity and name, in
/// their order.
pub open spec fn watched(validators: Seq<(PeerId, LocalNode)>) -> Seq<Watched> {
    Seq::new(
        validators.len(),
        |i: int| Watched { peer_id: validators[i].0, name: validators[i].1.name },
    )
}

/// Whether every node of `nodes` has a numbered name.
pub open spec fn numbered(nodes: Seq<(PeerId, LocalNode)>) -> bool {
    forall|i: int| 0 <= i < nodes.len() ==> name_number((#[trigger] nodes[i]).1.name@) is Some
}

/// The numbers of the names of `nodes`, node by node.
pub open spec fn node_numbers(nodes: Seq<(PeerId, LocalNode)>) -> Seq<i32> {
    Seq::new(nodes.len(), |i: int| name_number(nodes[i].1.name@)->0 as i32)
}

impl LocalSwarm {
    /// The swarm as contracts see it.
    pub closed spec fn view(&self) -> SwarmView {
        SwarmView {
            node_name_counter: self.node_name_counter,
            genesis: self.genesis@,
            genesis_waypoint: self.genesis_waypoint@,
            versions: self.versions@,
            validators: self.validators@,
            fullnodes: self.fullnodes@,
            public_networks: self.public_networks@,
            dir: self.dir,
            chain_id: self.chain_id,
            root_key: self.root_key@,
            launched: self.launched,
            held_slots: self.guard.held(),
        }
    }

    /// What holds of every swarm.
    pub open spec fn wf(&self) -> bool {
        self@.wf()
    }

    /// Composes a swarm of the validators that genesis produced.
    ///
    /// Every validator becomes a node that runs the initial version.  Its
    /// public network, of which it must have exactly one, is taken from it
    /// and put on record under its identity, for the full node that may
    /// later stand in front of it; the validator keeps none.  The new swarm
    /// has no full nodes and is not launched.  New nodes are named from the
    /// number of validators on, so no validator may have such a name.
    ///
    /// Where no swarm can be composed, the guard comes back with the reason,
    /// so that its slots can be released.
    pub fn build(
        validators: &Vec<ValidatorSetup>,
        versions: Vec<Version>,
        requested_version: Option<Version>,
        dir: SwarmDirectory,
        artifacts: GenesisArtifacts,
        guard: ActiveNodesGuard,
    ) -> (built: Result<LocalSwarm, (SwarmError, ActiveNodesGuard)>)
        ensures
            built matches Err(refusal) ==> build_fault(validators@, versions@, requested_version)
                == Some(refusal.0) && refusal.1 == guard,
            built matches Ok(swarm) ==> {
                &&& build_fault(validators@, versions@, requested_version) is None
                &&& swarm.wf()
                &&& exists|version: Version|
                    is_initial_version(versions@, requested_version, version) && is_composed_of(
                        swarm@,
                        validators@,
                        version,
                    )
                &&& swarm@.versions == versions@
                &&& swarm@.dir == dir
                &&& swarm@.genesis == artifacts.genesis@
                &&& swarm@.genesis_waypoint == artifacts.waypoint@
                &&& swarm@.root_key == artifacts.root_key@
                &&& swarm@.chain_id == TEST_CHAIN_ID
                &&& swarm@.held_slots == guard.held()
            },
    {
        if validators.len() == 0 {
            return Err((SwarmError::NoValidators, guard));
        }
        let version = match initial_version(&versions, requested_version) {
            Ok(version) => version,
            Err(e) => {
                return Err((e, guard));
            },
        };
        let mut nodes: PeerMap<LocalNode> = PeerMap::new();
        let mut public_networks: PeerMap<NetworkConfig> = PeerMap::new();
        let mut i: usize = 0;
        while i < validators.len()
            invariant
                i <= validators.len(),
                validators@.len() > 0,
                version_fault(versions@, requested_version) is None,
                nodes.wf(),
                public_networks.wf(),
                nodes@.len() == i,
                public_networks@.len() == i,
                forall|k: int| 0 <= k < i ==> setup_fault(validators@, k) is None,
                forall|k: int|
                    0 <= k < i ==> (#[trigger] nodes@[k]).0 == validators@[k].peer_id
                        && is_validator_record(nodes@[k].1, validators@[k], version),
                forall|k: int|
                    0 <= k < i ==> #[trigger] public_networks@[k] == (
                        validators@[k].peer_id,
                        validators@[k].full_node_networks@[public_place(
                            validators@[k].full_node_networks@,
                        )],
                    ),
            decreases validators.len() - i,
        {
            let setup = &validators[i];
            let peer_id = setup.peer_id;
            if nodes.contains_key(peer_id) {
                proof {
                    let k = key_index(nodes@, peer_id);
                    assert(validators@[k].peer_id == peer_id);
                    lemma_first_fault_at(validators@, 0, i as int);
                }
                return Err((SwarmError::DuplicateValidator(peer_id), guard));
            }
            proof {
                if exists|j: int| 0 <= j < i && (#[trigger] validators@[j]).peer_id == peer_id {
                    let j = choose|j: int| 0 <= j < i && (#[trigger] validators@[j]).peer_id == peer_id;
                    assert(nodes@[j].0 == peer_id);
                }
                if has_key(public_networks@, peer_id) {
                    let k = key_index(public_networks@, peer_id);
                    assert(public_networks@[k].0 == peer_id);
                    assert(nodes@[k].0 == peer_id);
                }
            }
            let mut networks = copy_networks(&setup.full_node_networks);
            let public_network = match detach_public_network(&mut networks) {
                Ok(network) => network,
                Err(fault) => {
                    proof {
                        lemma_first_fault_at(validators@, 0, i as int);
                    }
                    let error = match fault {
                        PublicNetworkFault::Missing => SwarmError::MissingPublicNetwork(peer_id),
                        PublicNetworkFault::Several => SwarmError::SeveralPublicNetworks(peer_id),
                    };
                    return Err((error, guard));
                },
            };
            match parse_name(setup.name.as_str()) {
                Some(number) => {
                    if number >= 0 && number as usize >= validators.len() {
                        proof {
                            lemma_first_fault_at(validators@, 0, i as int);
                        }
                        return Err((SwarmError::ReservedName { name: setup.name.clone() }, guard));
                    }
                },
                None => {},
            }
            let node = LocalNode::new(
                setup.name.clone(),
                peer_id,
                version.duplicate(),
                NodeRole::Validator,
                networks,
            );
            nodes.insert(peer_id, node);
            public_networks.insert(peer_id, public_network);
            i = i + 1;
        }
        proof {
            lemma_no_first_fault(validators@, 0);
            assert forall|k: int| 0 <= k < nodes@.len() implies (name_number(
                (#[trigger] nodes@[k]).1.name@,
            ) matches Some(number) ==> number < validators@.len()) by {
                assert(setup_fault(validators@, k) is None);
                assert(is_validator_record(nodes@[k].1, validators@[k], version));
            }
            assert forall|k: int| 0 <= k < nodes@.len() implies no_public(
                (#[trigger] nodes@[k]).1.networks@,
            ) by {
                assert(is_validator_record(nodes@[k].1, validators@[k], version));
            }
        }
        let swarm = LocalSwarm {
            node_name_counter: validators.len() as u64,
            genesis: artifacts.genesis,
            genesis_waypoint: artifacts.waypoint,
            versions,
            validators: nodes,
            fullnodes: PeerMap::new(),
            public_networks,
            dir,
            chain_id: TEST_CHAIN_ID,
            root_key: artifacts.root_key,
            launched: false,
            guard,
        };
        Ok(swarm)
    }

    /// The validators as supervision watches them.
    fn watch_list(&self) -> (list: Vec<Watched>)
        ensures
            list@ == watched(self@.validators),
    {
        let mut list: Vec<Watched> = Vec::new();
        let mut i: usize = 0;
        while i < self.validators.len()
            invariant
                i <= self.validators@.len(),
                list@ == watched(self.validators@).subrange(0, i as int),
            decreases self.validators@.len() - i,
        {
            let name = self.validators.value_at(i).name.clone();
            list.push(Watched { peer_id: self.validators.key_at(i), name });
            assert(list@ =~= watched(self.validators@).subrange(0, i + 1));
            i = i + 1;
        }
        assert(list@ =~= watched(self.validators@));
        list
    }

    /// Launches the swarm, which can be done once.
    ///
    /// The swarm counts as launched from here on, however the launch ends.
    /// What is handed out is the supervision of the launch: every validator
    /// is started, and then all of them must be alive within the time that
    /// a launch allows.
    pub fn launch(&mut self) -> (launched: Result<Supervision, SwarmError>)
        ensures
            old(self)@.launched ==> launched == Err::<Supervision, SwarmError>(
                SwarmError::AlreadyLaunched,
            ) && *final(self) == *old(self),
            !old(self)@.launched ==> {
                &&& launched matches Ok(supervision)
                &&& supervision.wf()
                &&& supervision@ == SupervisionView::launching(
                    watched(old(self)@.validators),
                    LAUNCH_TIMEOUT_MILLIS,
                )
                &&& final(self)@ == (SwarmView { launched: true, ..old(self)@ })
            },
    {
        if self.launched {
            return Err(SwarmError::AlreadyLaunched);
        }
        self.launched = true;
        Ok(Supervision::launching(self.watch_list(), LAUNCH_TIMEOUT_MILLIS))
    }

    /// The supervision under which the validators, started before, must be
    /// alive within `timeout_millis`: healthy each, connected, and moving.
    pub fn wait_all_alive(&self, timeout_millis: u64) -> (supervision: Supervision)
        ensures
            supervision.wf(),
            supervision@ == SupervisionView::waiting(watched(self@.validators), timeout_millis),
    {
        Supervision::waiting(self.watch_list(), timeout_millis)
    }

    /// Names the next new node, which is to run `version`.
    fn next_name(&mut self, version: &Version) -> (named: Result<String, SwarmError>)
        ensures
            named matches Err(e) ==> *final(self) == *old(self) && naming_fault(old(self)@, *version)
                == Some(e),
            named matches Ok(name) ==> {
                &&& naming_fault(old(self)@, *version) is None
                &&& name@ == decimal(old(self)@.node_name_counter as nat)
                &&& name_number(name@) == Some(old(self)@.node_name_counter as int)
                &&& final(self)@ == (SwarmView {
                    node_name_counter: (old(self)@.node_name_counter + 1) as u64,
                    ..old(self)@
                })
            },
    {
        if !is_known(&self.versions, version) {
            return Err(SwarmError::InvalidVersion(version.duplicate()));
        }
        if self.node_name_counter > 2147483647 {
            return Err(SwarmError::TooManyNodes);
        }
        proof {
            lemma_name_of_number(self.node_name_counter as nat);
        }
        let name = node_name(self.node_name_counter);
        self.node_name_counter = self.node_name_counter + 1;
        Ok(name)
    }

    /// Agrees to a full node in front of validator `validator_peer_id`, to
    /// run `version`, and says what it is to be made of: a name of its own
    /// and the public network that was taken from the validator.
    ///
    /// A validator has at most one full node.  The name is one that no
    /// node of the swarm has.  A request that is turned down leaves the
    /// swarm as it was.
    pub fn add_validator_fullnode(&mut self, version: &Version, validator_peer_id: PeerId) -> (planned:
        Result<FullnodePlan, SwarmError>)
        requires
            old(self).wf(),
        ensures
            final(self).wf(),
            planned matches Err(e) ==> *final(self) == *old(self) && validator_fullnode_fault(
                old(self)@,
                *version,
                validator_peer_id,
            ) == Some(e),
            !has_key(old(self)@.public_networks, validator_peer_id) ==> planned is Err,
            has_key(old(self)@.fullnodes, validator_peer_id) ==> planned is Err,
            planned matches Ok(plan) ==> {
                &&& validator_fullnode_fault(old(self)@, *version, validator_peer_id) is None
                &&& plan.name@ == decimal(old(self)@.node_name_counter as nat)
                &&& name_unused(old(self)@.validators, plan.name@)
                &&& name_unused(old(self)@.fullnodes, plan.name@)
                &&& plan.version == *version
                &&& plan.validator == Some(validator_peer_id)
                &&& plan.public_network == value_of(old(self)@.public_networks, validator_peer_id)
                &&& final(self)@ == (SwarmView {
                    node_name_counter: (old(self)@.node_name_counter + 1) as u64,
                    ..old(self)@
                })
            },
    {
        if !self.validators.contains_key(validator_peer_id) {
            return Err(SwarmError::NoValidator(validator_peer_id));
        }
        let public_network = match self.public_networks.get(validator_peer_id) {
            Some(network) => network.duplicate(),
            None => {
                return Err(SwarmError::NoPublicNetwork(validator_peer_id));
            },
        };
        if self.fullnodes.contains_key(validator_peer_id) {
            return Err(SwarmError::FullnodeExists(validator_peer_id));
        }
        let name = match self.next_name(version) {
            Ok(name) => name,
            Err(e) => {
                return Err(e);
            },
        };
        proof {
            lemma_new_name_unused(old(self)@.validators, old(self)@.node_name_counter as int, name@);
            lemma_new_name_unused(old(self)@.fullnodes, old(self)@.node_name_counter as int, name@);
        }
        Ok(
            FullnodePlan {
                name,
                version: version.duplicate(),
                validator: Some(validator_peer_id),
                public_network: Some(public_network),
            },
        )
    }

    /// Agrees to a full node with an identity of its own, to run `version`,
    /// and says what it is to be made of.  The name is one that no node of
    /// the swarm has.
    pub fn add_fullnode(&mut self, version: &Version) -> (planned: Result<FullnodePlan, SwarmError>)
        requires
            old(self).wf(),
        ensures
            final(self).wf(),
            planned matches Err(e) ==> *final(self) == *old(self) && naming_fault(old(self)@, *version)
                == Some(e),
            planned matches Ok(plan) ==> {
                &&& naming_fault(old(self)@, *version) is None
                &&& plan.name@ == decimal(old(self)@.node_name_counter as nat)
                &&& name_unused(old(self)@.validators, plan.name@)
                &&& name_unused(old(self)@.fullnodes, plan.name@)
                &&& plan.version == *version
                &&& plan.validator is None
                &&& plan.public_network is None
                &&& final(self)@ == (SwarmView {
                    node_name_counter: (old(self)@.node_name_counter + 1) as u64,
                    ..old(self)@
                })
            },
    {
        let name = match self.next_name(version) {
            Ok(name) => name,
            Err(e) => {
                return Err(e);
            },
        };
        proof {
            lemma_new_name_unused(old(self)@.validators, old(self)@.node_name_counter as int, name@);
            lemma_new_name_unused(old(self)@.fullnodes, old(self)@.node_name_counter as int, name@);
        }
        Ok(FullnodePlan { name, version: version.duplicate(), validator: None, public_network: None })
    }

    /// Registers the full node that was made after `plan`, created and
    /// started, and came up with the identity `peer_id`.
    ///
    /// The full node of a validator must have come up with the validator's
    /// identity.  No registration replaces a node: where a full node is
    /// registered under the identity already, the swarm stays as it was.
    pub fn register_fullnode(&mut self, plan: FullnodePlan, peer_id: PeerId) -> (registered: Result<
        PeerId,
        SwarmError,
    >)
        requires
            old(self).wf(),
        ensures
            final(self).wf(),
            registered matches Err(e) ==> *final(self) == *old(self) && registration_fault(
                old(self)@,
                plan,
                peer_id,
            ) == Some(e),
            registered matches Ok(id) ==> {
                &&& registration_fault(old(self)@, plan, peer_id) is None
                &&& id == peer_id
                &&& is_registration(old(self)@, final(self)@, plan, peer_id)
            },
    {
        let is_validator = self.validators.contains_key(peer_id);
        match plan.validator {
            Some(expected) => {
                if !(expected == peer_id) {
                    return Err(SwarmError::IdentityMismatch { expected, actual: peer_id });
                }
                if !is_validator {
                    return Err(SwarmError::NoValidator(peer_id));
                }
            },
            None => {
                if is_validator {
                    return Err(SwarmError::IdentityTaken(peer_id));
                }
            },
        }
        if self.fullnodes.contains_key(peer_id) {
            return Err(SwarmError::FullnodeExists(peer_id));
        }
        match parse_name(plan.name.as_str()) {
            Some(number) => {
                if number >= 0 && number as u64 >= self.node_name_counter {
                    return Err(SwarmError::ReservedName { name: plan.name });
                }
            },
            None => {},
        }
        let role = match plan.validator {
            Some(_) => NodeRole::ValidatorFullNode,
            None => NodeRole::PublicFullNode,
        };
        let mut networks: Vec<NetworkConfig> = Vec::new();
        match plan.public_network {
            Some(network) => {
                networks.push(network);
            },
            None => {},
        }
        assert(networks@ =~= plan.networks());
        let node = LocalNode::new(plan.name, peer_id, plan.version, role, networks);
        self.fullnodes.insert(peer_id, node);
        proof {
            let before = old(self)@.fullnodes;
            let after = self@.fullnodes;
            assert(after.drop_last() =~= before);
            assert forall|i: int| 0 <= i < after.len() implies (#[trigger] after[i]).0
                == after[i].1.peer_id && after[i].1.role != NodeRole::Validator && (after[i].1.role
                == NodeRole::ValidatorFullNode <==> has_key(self@.validators, after[i].0)) && (
            name_number(after[i].1.name@) matches Some(number) ==> number
                < self@.node_name_counter) by {
                if i < before.len() {
                    assert(after[i] == before[i]);
                }
            }
        }
        Ok(peer_id)
    }

    /// Takes the full node `id` out of the swarm and hands its record back,
    /// for the caller to stop it.  Where there is no such full node, nothing
    /// happens: that is no failure.
    pub fn remove_full_node(&mut self, id: PeerId) -> (removed: Option<LocalNode>)
        requires
            old(self).wf(),
        ensures
            final(self).wf(),
            removed == value_of(old(self)@.fullnodes, id),
            final(self)@ == (SwarmView {
                fullnodes: without_key(old(self)@.fullnodes, id),
                ..old(self)@
            }),
            !has_key(final(self)@.fullnodes, id),
            !has_key(old(self)@.fullnodes, id) ==> removed is None && final(self)@ == old(self)@,
    {
        proof {
            crate::peer_map::lemma_without_key(self@.fullnodes, id);
            lemma_without_key_keeps(self@.fullnodes, id);
        }
        self.fullnodes.remove(id)
    }

    /// Rebinds validator `id` to `version`, which the swarm must know.  The
    /// validator keeps its name, its identity and its place.
    pub fn upgrade_validator(&mut self, id: PeerId, version: &Version) -> (upgraded: Result<
        (),
        SwarmError,
    >)
        requires
            old(self).wf(),
        ensures
            final(self).wf(),
            upgraded matches Err(e) ==> *final(self) == *old(self) && upgrade_fault(
                old(self)@,
                id,
                *version,
            ) == Some(e),
            upgraded is Ok ==> {
                &&& upgrade_fault(old(self)@, id, *version) is None
                &&& final(self)@ == (SwarmView {
                    validators: old(self)@.validators.update(
                        key_index(old(self)@.validators, id),
                        (
                            id,
                            LocalNode {
                                version: *version,
                                ..old(self)@.validators[key_index(old(self)@.validators, id)].1
                            },
                        ),
                    ),
                    ..old(self)@
                })
            },
    {
        if !is_known(&self.versions, version) {
            return Err(SwarmError::InvalidVersion(version.duplicate()));
        }
        let place = match self.validators.position(id) {
            Some(place) => place,
            None => {
                return Err(SwarmError::InvalidId(id));
            },
        };
        let (key, mut node) = self.validators.take_at(place);
        node.upgrade(version.duplicate());
        self.validators.put_at(place, key, node);
        proof {
            let before = old(self)@.validators;
            let after = self@.validators;
            assert(after =~= before.update(place as int, (id, node)));
            assert forall|i: int| 0 <= i < after.len() implies (#[trigger] after[i]).0
                == after[i].1.peer_id && after[i].1.role == NodeRole::Validator && no_public(
                after[i].1.networks@,
            ) && (name_number(after[i].1.name@) matches Some(number) ==> number
                < self@.node_name_counter) by {
                if i != place {
                    assert(after[i] == before[i]);
                } else {
                    assert(after[i].1.networks == before[i].1.networks);
                    assert(after[i].1.name == before[i].1.name);
                }
            }
            lemma_same_keys(before, after);
            assert forall|i: int| 0 <= i < self@.fullnodes.len() implies ((
            #[trigger] self@.fullnodes[i]).1.role == NodeRole::ValidatorFullNode <==> has_key(
                after,
                self@.fullnodes[i].0,
            )) by {
                assert(has_key(after, self@.fullnodes[i].0) == has_key(before, self@.fullnodes[i].0));
            }
        }
        Ok(())
    }

    /// The validator `peer_id`.
    pub fn validator(&self, peer_id: PeerId) -> (node: Option<&LocalNode>)
        requires
            self.wf(),
        ensures
            node is Some <==> has_key(self@.validators, peer_id),
            node matches Some(n) ==> value_of(self@.validators, peer_id) == Some(*n) && n.peer_id
                == peer_id,
    {
        self.validators.get(peer_id)
    }

    /// The full node `peer_id`.
    pub fn fullnode(&self, peer_id: PeerId) -> (node: Option<&LocalNode>)
        requires
            self.wf(),
        ensures
            node is Some <==> has_key(self@.fullnodes, peer_id),
            node matches Some(n) ==> value_of(self@.fullnodes, peer_id) == Some(*n) && n.peer_id
                == peer_id,
    {
        self.fullnodes.get(peer_id)
    }

    /// The public network on record for validator `peer_id`.
    pub fn public_network(&self, peer_id: PeerId) -> (network: Option<&NetworkConfig>)
        requires
            self.wf(),
        ensures
            network is Some <==> has_key(self@.public_networks, peer_id),
            network matches Some(n) ==> value_of(self@.public_networks, peer_id) == Some(*n),
    {
        self.public_networks.get(peer_id)
    }

    /// Whether every validator has a numbered name, so that the validators
    /// can be listed in the order of their numbers.
    pub fn validators_numbered(&self) -> (yes: bool)
        ensures
            yes == numbered(self@.validators),
    {
        let mut i: usize = 0;
        while i < self.validators.len()
            invariant
                i <= self.validators@.len(),
                forall|k: int|
                    0 <= k < i ==> name_number((#[trigger] self.validators@[k]).1.name@) is Some,
            decreases self.validators@.len() - i,
        {
            if parse_name(self.validators.value_at(i).name()).is_none() {
                return false;
            }
            i = i + 1;
        }
        true
    }

    /// The validators in the order of the numbers of their names, smallest
    /// first, whatever the order in which they came in.  Validators of one
    /// number stay in the order in which they came in.
    pub fn validators(&self) -> (listed: Vec<&LocalNode>)
        requires
            numbered(self@.validators),
        ensures
            listed@.len() == self@.validators.len(),
            exists|order: Seq<usize>|
                is_stable_order(node_numbers(self@.validators), order) && forall|k: int|
                    0 <= k < listed@.len() ==> *(#[trigger] listed@[k]) == self@.validators[order[k] as int].1,
            forall|a: int, b: int|
                0 <= a <= b < listed@.len() ==> name_number(listed@[a].name@)->0 <= name_number(
                    listed@[b].name@,
                )->0,
    {
        let count: usize = self.validators.len();
        let mut numbers: Vec<i32> = Vec::new();
        let mut i: usize = 0;
        while i < count
            invariant
                i <= count,
                count == self@.validators.len(),
                numbered(self@.validators),
                numbers@ == node_numbers(self@.validators).subrange(0, i as int),
            decreases count - i,
        {
            match parse_name(self.validators.value_at(i).name()) {
                Some(number) => {
                    numbers.push(number);
                },
                None => {
                    assert(name_number(self@.validators[i as int].1.name@) is Some);
                    assert(false);
                },
            }
            assert(numbers@ =~= node_numbers(self@.validators).subrange(0, i + 1));
            i = i + 1;
        }
        assert(numbers@ =~= node_numbers(self@.validators));
        let order = stable_order(&numbers);
        let mut listed: Vec<&LocalNode> = Vec::new();
        let mut k: usize = 0;
        while k < count
            invariant
                k <= count,
                count == self@.validators.len(),
                order@.len() == count,
                is_stable_order(node_numbers(self@.validators), order@),
                listed@.len() == k,
                forall|j: int|
                    0 <= j < k ==> *(#[trigger] listed@[j]) == self@.validators[order@[j] as int].1,
            decreases count - k,
        {
            listed.push(self.validators.value_at(order[k]));
            k = k + 1;
        }
        proof {
            let keys = node_numbers(self@.validators);
            assert forall|a: int, b: int| 0 <= a <= b < listed@.len() implies name_number(
                listed@[a].name@,
            )->0 <= name_number(listed@[b].name@)->0 by {
                lemma_order_ascends(keys, order@, a, b);
                assert(*listed@[a] == self@.validators[order@[a] as int].1);
                assert(*listed@[b] == self@.validators[order@[b] as int].1);
            }
        }
        listed
    }

    /// The full nodes, in the order in which they were registered.
    pub fn full_nodes(&self) -> (listed: Vec<&LocalNode>)
        ensures
            listed@.len() == self@.fullnodes.len(),
            forall|k: int| 0 <= k < listed@.len() ==> *(#[trigger] listed@[k]) == self@.fullnodes[k].1,
    {
        let mut listed: Vec<&LocalNode> = Vec::new();
        let mut k: usize = 0;
        while k < self.fullnodes.len()
            invariant
                k <= self.fullnodes@.len(),
                listed@.len() == k,
                forall|j: int| 0 <= j < k ==> *(#[trigger] listed@[j]) == self.fullnodes@[j].1,
            decreases self.fullnodes@.len() - k,
        {
            listed.push(self.fullnodes.value_at(k));
            k = k + 1;
        }
        listed
    }

    /// The versions that nodes of this swarm can run.
    pub fn versions(&self) -> (known: Vec<Version>)
        ensures
            known@ == self@.versions,
    {
        let mut known: Vec<Version> = Vec::new();
        let mut i: usize = 0;
        while i < self.versions.len()
            invariant
                i <= self.versions@.len(),
                known@ == self.versions@.subrange(0, i as int),
            decreases self.versions@.len() - i,
        {
            known.push(self.versions[i].duplicate());
            assert(known@ =~= self.versions@.subrange(0, i + 1));
            i = i + 1;
        }
        assert(known@ =~= self.versions@);
        known
    }

    /// The key of the root account.
    pub fn root_key(&self) -> (key: Vec<u8>)
        ensures
            key@ == self@.root_key,
    {
        copy_bytes(&self.root_key)
    }

    /// The key of the root account in hexadecimal, as it is shown to whoever
    /// sets up a faucet for the swarm.
    pub fn encoded_root_key(&self) -> (text: String)
        ensures
            text@ == hex_text(self@.root_key),
    {
        hex_encode(&self.root_key)
    }

    /// The id of the chain.
    pub fn chain_id(&self) -> (id: u8)
        ensures
            id == self@.chain_id,
    {
        self.chain_id
    }

    /// The genesis transaction, encoded.
    pub fn genesis(&self) -> (genesis: &Vec<u8>)
        ensures
            genesis@ == self@.genesis,
    {
        &self.genesis
    }

    /// The waypoint that binds the genesis state.
    pub fn genesis_waypoint(&self) -> (waypoint: &str)
        ensures
            waypoint@ == self@.genesis_waypoint,
    {
        self.genesis_waypoint.as_str()
    }

    /// The directory of the swarm.
    pub fn dir(&self) -> (dir: &SwarmDirectory)
        ensures
            *dir == self@.dir,
    {
        &self.dir
    }

    /// Whether the swarm was launched.
    pub fn is_launched(&self) -> (yes: bool)
        ensures
            yes == self@.launched,
    {
        self.launched
    }

    /// The number of node slots that the swarm holds on its host.
    pub fn held_slots(&self) -> (slots: usize)
        ensures
            slots == self@.held_slots,
    {
        self.guard.slots()
    }

    /// Takes the swarm apart at the end of its life.
    ///
    /// Where the swarm ends in a failure that nothing has handled, its
    /// directory is kept and the place of the logs is given, so that what the
    /// nodes wrote can be read afterwards.  Otherwise the directory is left
    /// as it is: a temporary one goes away with the value handed back.  The
    /// guard is handed back to be released.
    pub fn teardown(self, failing: bool) -> (parts: Teardown)
        ensures
            parts.guard.held() == self@.held_slots,
            failing ==> {
                &&& parts.dir is Persistent
                &&& parts.dir.location() == self@.dir.location()
                &&& parts.logs matches Some(text)
                &&& text@ == self@.dir.location()
            },
            failing && self@.dir is Persistent ==> parts.dir == self@.dir,
            !failing ==> parts.dir == self@.dir && parts.logs is None,
    {
        let mut swarm = self;
        let logs = if failing {
            Some(swarm.logs_location())
        } else {
            None
        };
        Teardown { guard: swarm.guard, dir: swarm.dir, logs }
    }

    /// Where the logs of the swarm are.  Asking makes the directory stay:
    /// who asks wants to read them after the swarm is gone.
    pub fn logs_location(&mut self) -> (text: String)
        ensures
            text@ == old(self)@.dir.location(),
            final(self)@.dir is Persistent,
            final(self)@.dir.location() == old(self)@.dir.location(),
            old(self)@.dir is Persistent ==> final(self)@.dir == old(self)@.dir,
            final(self)@ == (SwarmView { dir: final(self)@.dir, ..old(self)@ }),
    {
        self.dir.persist();
        self.dir.display()
    }
}

/// A validator gets one full node and no second: once the full node made
/// after a plan for validator `id` is registered, every further request for
/// a full node of `id` is refused because the full node exists, whatever
/// version it asks for.
pub proof fn lemma_second_fullnode_refused(
    before: SwarmView,
    after: SwarmView,
    plan: FullnodePlan,
    id: PeerId,
    version: Version,
)
    requires
        before.wf(),
        has_key(before.validators, id),
        has_key(before.public_networks, id),
        plan.validator == Some(id),
        is_registration(before, after, plan, id),
    ensures
        validator_fullnode_fault(after, version, id) == Some(SwarmError::FullnodeExists(id)),
{
    assert(after.fullnodes[after.fullnodes.len() - 1].0 == id);
}

/// A validator without a public network on record gets no full node.
pub proof fn lemma_no_public_network_no_fullnode(swarm: SwarmView, version: Version, id: PeerId)
    requires
        !has_key(swarm.public_networks, id),
    ensures
        validator_fullnode_fault(swarm, version, id) is Some,
        has_key(swarm.validators, id) ==> validator_fullnode_fault(swarm, version, id) == Some(
            SwarmError::NoPublicNetwork(id),
        ),
{
}

/// A swarm composed of validators has as many validators as it was given,
/// no two of them with the same identity, and as many public networks on
/// record, one for each validator.
pub proof fn lemma_composed_swarm(swarm: SwarmView, setups: Seq<ValidatorSetup>, version: Version)
    requires
        swarm.wf(),
        is_composed_of(swarm, setups, version),
    ensures
        swarm.validators.len() == setups.len(),
        swarm.public_networks.len() == setups.len(),
        forall|i: int, j: int|
            0 <= i < j < setups.len() ==> (#[trigger] swarm.validators[i]).1.peer_id != (
            #[trigger] swarm.validators[j]).1.peer_id,
        forall|i: int|
            0 <= i < setups.len() ==> has_key(
                swarm.public_networks,
                (#[trigger] swarm.validators[i]).1.peer_id,
            ),
        forall|i: int, j: int|
            0 <= i < j < setups.len() ==> (#[trigger] swarm.public_networks[i]).0 != (
            #[trigger] swarm.public_networks[j]).0,
{
    assert forall|i: int, j: int| 0 <= i < j < setups.len() implies (
    #[trigger] swarm.validators[i]).1.peer_id != (#[trigger] swarm.validators[j]).1.peer_id by {
        assert(swarm.validators[i].0 != swarm.validators[j].0);
    }
    assert forall|i: int| 0 <= i < setups.len() implies has_key(
        swarm.public_networks,
        (#[trigger] swarm.validators[i]).1.peer_id,
    ) by {
        assert(swarm.public_networks[i].0 == setups[i].peer_id);
    }
}

/// The listing of the validators does not depend on the order in which they
/// came in: two swarms with the same validators, no two of them with the
/// same number, list them alike, place by place.
pub proof fn lemma_listing_ignores_arrival(
    a: Seq<(PeerId, LocalNode)>,
    order_a: Seq<usize>,
    b: Seq<(PeerId, LocalNode)>,
    order_b: Seq<usize>,
)
    requires
        a.len() == b.len(),
        a.len() <= usize::MAX,
        forall|i: int| 0 <= i < a.len() ==> b.contains(#[trigger] a[i]),
        forall|i: int| 0 <= i < b.len() ==> a.contains(#[trigger] b[i]),
        node_numbers(a).no_duplicates(),
        node_numbers(b).no_duplicates(),
        is_stable_order(node_numbers(a), order_a),
        is_stable_order(node_numbers(b), order_b),
    ensures
        forall|k: int|
            0 <= k < a.len() ==> a[(#[trigger] order_a[k]) as int] == b[order_b[k] as int],
{
    let na = node_numbers(a);
    let nb = node_numbers(b);
    assert forall|i: int| 0 <= i < na.len() implies nb.contains(#[trigger] na[i]) by {
        assert(b.contains(a[i]));
        let j = choose|j: int| 0 <= j < b.len() && b[j] == a[i];
        assert(nb[j] == na[i]);
    }
    assert forall|i: int| 0 <= i < nb.len() implies na.contains(#[trigger] nb[i]) by {
        assert(a.contains(b[i]));
        let j = choose|j: int| 0 <= j < a.len() && a[j] == b[i];
        assert(na[j] == nb[i]);
    }
    lemma_order_ignores_arrangement(na, order_a, nb, order_b);
    assert forall|k: int| 0 <= k < a.len() implies a[(#[trigger] order_a[k]) as int]
        == b[order_b[k] as int] by {
        let x = order_a[k] as int;
        let y = order_b[k] as int;
        assert(in_order(na, order_a)[k] == in_order(nb, order_b)[k]);
        assert(na[x] == nb[y]);
        assert(a.contains(b[y]));
        let i = choose|i: int| 0 <= i < a.len() && a[i] == b[y];
        assert(na[i] == nb[y]);
        if i != x {
            assert(na[i] != na[x]);
        }
    }
}

/// A name whose number is not below the counter is one that no node has.
pub proof fn lemma_new_name_unused(nodes: Seq<(PeerId, LocalNode)>, counter: int, name: Seq<char>)
    requires
        names_below(nodes, counter),
        name_number(name) matches Some(number) && number >= counter,
    ensures
        name_unused(nodes, name),
{
    assert forall|i: int| 0 <= i < nodes.len() implies (#[trigger] nodes[i]).1.name@ != name by {
        if nodes[i].1.name@ == name {
            assert(name_number(nodes[i].1.name@) == name_number(name));
        }
    }
}

/// Lists with the same keys in the same places have the same keys.
proof fn lemma_same_keys(a: Seq<(PeerId, LocalNode)>, b: Seq<(PeerId, LocalNode)>)
    requires
        a.len() == b.len(),
        forall|i: int| 0 <= i < a.len() ==> (#[trigger] a[i]).0 == b[i].0,
    ensures
        forall|id: PeerId| #[trigger] has_key(a, id) == has_key(b, id),
{
    assert forall|id: PeerId| #[trigger] has_key(a, id) == has_key(b, id) by {
        if has_key(a, id) {
            let k = key_index(a, id);
            assert(b[k].0 == id);
        }
        if has_key(b, id) {
            let k = key_index(b, id);
            assert(a[k].0 == id);
        }
    }
}

/// Dropping a key leaves the remaining nodes what they were.
proof fn lemma_without_key_keeps(nodes: Seq<(PeerId, LocalNode)>, id: PeerId)
    requires
        distinct_keys(nodes),
        keyed_by_identity(nodes),
        forall|i: int| 0 <= i < nodes.len() ==> (#[trigger] nodes[i]).1.role != NodeRole::Validator,
    ensures
        keyed_by_identity(without_key(nodes, id)),
        forall|i: int|
            0 <= i < without_key(nodes, id).len() ==> (#[trigger] without_key(nodes, id)[i]).1.role
                != NodeRole::Validator,
{
    if has_key(nodes, id) {
        let place = key_index(nodes, id);
        let after = without_key(nodes, id);
        assert forall|i: int| 0 <= i < after.len() implies (#[trigger] after[i]).0
            == after[i].1.peer_id && after[i].1.role != NodeRole::Validator by {
            if i < place {
                assert(after[i] == nodes[i]);
            } else {
                assert(after[i] == nodes[i + 1]);
            }
        }
    }
}

} // verus!