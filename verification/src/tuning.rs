//! Settings that every validator of a local swarm starts with.
//!
//! They are applied to a validator's configuration before anything that the
//! caller wants to set, so that the caller has the last word.

use vstd::prelude::*;

verus! {

/// Number of transactions that a validator of a local swarm executes side
/// by side: one.
pub const LOCAL_CONCURRENCY_LEVEL: u64 = 1;

/// How often a lone validator polls for transactions before it proposes an
/// empty block.
pub const LONE_VALIDATOR_POLL_COUNT: u64 = 30;

/// Seconds that a lone validator waits for peers to synchronise with.
pub const LONE_VALIDATOR_CONNECTION_DEADLINE_SECS: u64 = 1;

/// What is set in the configuration of a validator.  A value that is absent
/// is left as it is.
#[derive(Clone, Copy, Debug, PartialEq, Eq, Structural)]
pub struct ValidatorTuning {
    pub concurrency_level: u64,
    pub quorum_store_poll_count: Option<u64>,
    pub max_connection_deadline_secs: Option<u64>,
}

/// The settings for the validators of a swarm of `number_of_validators`.
pub open spec fn tuning_for(number_of_validators: usize) -> ValidatorTuning {
    if number_of_validators == 1 {
        ValidatorTuning {
            concurrency_level: LOCAL_CONCURRENCY_LEVEL,
            quorum_store_poll_count: Some(LONE_VALIDATOR_POLL_COUNT),
            max_connection_deadline_secs: Some(LONE_VALIDATOR_CONNECTION_DEADLINE_SECS),
        }
    } else {
        ValidatorTuning {
            concurrency_level: LOCAL_CONCURRENCY_LEVEL,
            quorum_store_poll_count: None,
            max_connection_deadline_secs: None,
        }
    }
}

/// The settings for the validators of a swarm of `number_of_validators`.
///
/// No validator executes in parallel.  A validator that is alone orders
/// blocks faster than it can fill them, which would stall it; so it is made
/// to poll longer before it proposes an empty block, and to give up waiting
/// for peers after a second.
pub fn validator_tuning(number_of_validators: usize) -> (tuning: ValidatorTuning)
    ensures
        tuning == tuning_for(number_of_validators),
{
    if number_of_validators == 1 {
        ValidatorTuning {
            concurrency_level: LOCAL_CONCURRENCY_LEVEL,
            quorum_store_poll_count: Some(LONE_VALIDATOR_POLL_COUNT),
            max_connection_deadline_secs: Some(LONE_VALIDATOR_CONNECTION_DEADLINE_SECS),
        }
    } else {
        ValidatorTuning {
            concurrency_level: LOCAL_CONCURRENCY_LEVEL,
            quorum_store_poll_count: None,
            max_connection_deadline_secs: None,
        }
    }
}

} // verus!
