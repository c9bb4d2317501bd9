//! Administrative transactions against a running network.
//!
//! Before load is put on a network, its root account bumps the version of
//! the chain, which makes the network begin a new epoch.  The exchange with
//! the network is the caller's; what to ask next, and whether the bump has
//! taken effect, is decided here.  So is the load that follows.

use vstd::prelude::*;
use vstd::string::*;
use crate::names::{decimal, node_name};

verus! {

/// The most gas that the version bump may use.
pub const RECONFIG_MAX_GAS_AMOUNT: u64 = 100000;

/// The price of a unit of gas in every transaction sent.
pub const GAS_UNIT_PRICE: u64 = 1;

/// Where the ledger stands.
#[derive(Clone, Copy, Debug, PartialEq, Eq, Structural)]
pub struct LedgerState {
    pub epoch: u64,
    pub version: u64,
}

/// What is kept of a transaction for a report.
#[derive(Clone, Debug, PartialEq, Eq)]
pub enum TransactionSummary {
    /// A transaction sent by a user, with its sequence number and its
    /// payload as text.
    User { sequence_number: u64, payload: String },
    /// A transaction of another kind, and the name of the kind.
    Other { kind: String },
}

/// Why the version bump did not take effect.
#[derive(Clone, Debug, PartialEq, Eq)]
pub enum ReconfigError {
    /// The version of the chain could not be read.
    VersionUnavailable(String),
    /// There is no number behind the one that was read.
    VersionOverflow,
    /// The transaction was not executed; with it come the last transactions
    /// of the root account, for whoever looks into it.
    Rejected { reason: String, last_transactions: Vec<TransactionSummary> },
    /// The transaction was taken but is not part of the ledger.
    NotCommitted,
    /// The ledger could not be followed to the version behind the
    /// transaction.
    LedgerUnavailable(String),
    /// The ledger went on in an epoch that is not later than the one before
    /// the transaction.
    EpochNotAdvanced { before: u64, after: u64 },
    /// Something was reported that was not asked for.
    UnexpectedEvent,
}

/// How far the version bump has come.
#[derive(Clone, Debug, PartialEq, Eq)]
pub enum Reconfig {
    /// The version of the chain is being read.
    ReadingVersion,
    /// The transaction that sets the version to `major` is being submitted;
    /// `before` is where the ledger stood when the version was read.
    Submitting { major: u64, before: LedgerState },
    /// The transaction was not executed, for `reason`, and the last
    /// transactions of the root account are being read.
    Diagnosing { reason: String },
    /// The ledger is being followed to version `target`, the one behind the
    /// transaction.
    Following { before: LedgerState, target: u64 },
    /// The bump has taken effect, and the ledger stands at `state`.
    Done { state: LedgerState },
    /// The bump has failed.
    Failed(ReconfigError),
}

/// What the caller is to do next.
#[derive(Clone, Copy, Debug, PartialEq, Eq, Structural)]
pub enum ReconfigAction {
    /// Read the version of the chain and where the ledger stands.
    ReadVersion,
    /// Have the root account sign and submit the transaction that sets the
    /// version, and wait for it.
    Submit { major: u64, max_gas_amount: u64 },
    /// Read the transactions of the root account.
    ReadAccountTransactions,
    /// Wait until the ledger has reached this version.
    WaitForVersion(u64),
    /// Nothing: the bump is over.
    Stop,
}

/// What came of an action.
#[derive(Clone, Debug)]
pub enum ReconfigEvent {
    /// The version of the chain, and where the ledger stands.
    Version { major: u64, state: LedgerState },
    /// The version could not be read.
    VersionFailed(String),
    /// The transaction was executed, at this version of the ledger if it
    /// has one.
    Committed { version: Option<u64> },
    /// The transaction was not executed.
    SubmitFailed(String),
    /// The transactions of the root account; none where they could not be
    /// read.
    AccountTransactions(Vec<TransactionSummary>),
    /// The ledger has reached the version, and stands here.
    Reached(LedgerState),
    /// The ledger could not be followed.
    WaitFailed(String),
}

/// The bump after `event`.  It has taken effect when the ledger, behind the
/// transaction, is in a later epoch than before it.
pub open spec fn reconfig_next(stage: Reconfig, event: ReconfigEvent) -> Reconfig {
    match (stage, event) {
        (Reconfig::Done { state }, _) => stage,
        (Reconfig::Failed(_), _) => stage,
        (Reconfig::ReadingVersion, ReconfigEvent::Version { major, state }) => if major < u64::MAX {
            Reconfig::Submitting { major: (major + 1) as u64, before: state }
        } else {
            Reconfig::Failed(ReconfigError::VersionOverflow)
        },
        (Reconfig::ReadingVersion, ReconfigEvent::VersionFailed(reason)) => Reconfig::Failed(
            ReconfigError::VersionUnavailable(reason),
        ),
        (Reconfig::Submitting { major, before }, ReconfigEvent::Committed { version }) => match version {
            Some(v) => if v < u64::MAX {
                Reconfig::Following { before, target: (v + 1) as u64 }
            } else {
                Reconfig::Failed(ReconfigError::VersionOverflow)
            },
            None => Reconfig::Failed(ReconfigError::NotCommitted),
        },
        (Reconfig::Submitting { major, before }, ReconfigEvent::SubmitFailed(reason)) => Reconfig::Diagnosing {
            reason,
        },
        (
            Reconfig::Diagnosing { reason },
            ReconfigEvent::AccountTransactions(last_transactions),
        ) => Reconfig::Failed(ReconfigError::Rejected { reason, last_transactions }),
        (Reconfig::Following { before, target }, ReconfigEvent::Reached(state)) => if state.epoch
            > before.epoch {
            Reconfig::Done { state }
        } else {
            Reconfig::Failed(
                ReconfigError::EpochNotAdvanced { before: before.epoch, after: state.epoch },
            )
        },
        (Reconfig::Following { before, target }, ReconfigEvent::WaitFailed(reason)) => Reconfig::Failed(
            ReconfigError::LedgerUnavailable(reason),
        ),
        _ => Reconfig::Failed(ReconfigError::UnexpectedEvent),
    }
}

/// What the caller is to do at `stage`.
pub open spec fn reconfig_action(stage: Reconfig) -> ReconfigAction {
    match stage {
        Reconfig::ReadingVersion => ReconfigAction::ReadVersion,
        Reconfig::Submitting { major, before } => ReconfigAction::Submit {
            major,
            max_gas_amount: RECONFIG_MAX_GAS_AMOUNT,
        },
        Reconfig::Diagnosing { reason } => ReconfigAction::ReadAccountTransactions,
        Reconfig::Following { before, target } => ReconfigAction::WaitForVersion(target),
        Reconfig::Done { state } => ReconfigAction::Stop,
        Reconfig::Failed(_) => ReconfigAction::Stop,
    }
}

/// Takes the version bump one step on: from where it stands and what came
/// of the last action to where it stands then.  It begins at
/// `Reconfig::ReadingVersion`.
pub fn reconfig(stage: Reconfig, event: ReconfigEvent) -> (next: Reconfig)
    ensures
        next == reconfig_next(stage, event),
{
    match stage {
        Reconfig::Done { state } => Reconfig::Done { state },
        Reconfig::Failed(reason) => Reconfig::Failed(reason),
        Reconfig::ReadingVersion => match event {
            ReconfigEvent::Version { major, state } => {
                if major < u64::MAX {
                    Reconfig::Submitting { major: major + 1, before: state }
                } else {
                    Reconfig::Failed(ReconfigError::VersionOverflow)
                }
            },
            ReconfigEvent::VersionFailed(reason) => Reconfig::Failed(
                ReconfigError::VersionUnavailable(reason),
            ),
            _ => Reconfig::Failed(ReconfigError::UnexpectedEvent),
        },
        Reconfig::Submitting { major, before } => match event {
            ReconfigEvent::Committed { version } => match version {
                Some(v) => {
                    if v < u64::MAX {
                        Reconfig::Following { before, target: v + 1 }
                    } else {
                        Reconfig::Failed(ReconfigError::VersionOverflow)
                    }
                },
                None => Reconfig::Failed(ReconfigError::NotCommitted),
            },
            ReconfigEvent::SubmitFailed(reason) => Reconfig::Diagnosing { reason },
            _ => Reconfig::Failed(ReconfigError::UnexpectedEvent),
        },
        Reconfig::Diagnosing { reason } => match event {
            ReconfigEvent::AccountTransactions(last_transactions) => Reconfig::Failed(
                ReconfigError::Rejected { reason, last_transactions },
            ),
            _ => Reconfig::Failed(ReconfigError::UnexpectedEvent),
        },
        Reconfig::Following { before, target } => match event {
            ReconfigEvent::Reached(state) => {
                if state.epoch > before.epoch {
                    Reconfig::Done { state }
                } else {
                    Reconfig::Failed(
                        ReconfigError::EpochNotAdvanced { before: before.epoch, after: state.epoch },
                    )
                }
            },
            ReconfigEvent::WaitFailed(reason) => Reconfig::Failed(
                ReconfigError::LedgerUnavailable(reason),
            ),
            _ => Reconfig::Failed(ReconfigError::UnexpectedEvent),
        },
    }
}

impl Reconfig {
    /// What the caller is to do now.
    pub fn action(&self) -> (action: ReconfigAction)
        ensures
            action == reconfig_action(*self),
    {
        match self {
            Reconfig::ReadingVersion => ReconfigAction::ReadVersion,
            Reconfig::Submitting { major, before } => ReconfigAction::Submit {
                major: *major,
                max_gas_amount: RECONFIG_MAX_GAS_AMOUNT,
            },
            Reconfig::Diagnosing { reason } => ReconfigAction::ReadAccountTransactions,
            Reconfig::Following { before, target } => ReconfigAction::WaitForVersion(*target),
            Reconfig::Done { state } => ReconfigAction::Stop,
            Reconfig::Failed(_) => ReconfigAction::Stop,
        }
    }
}

/// The bump after a sequence of events, one after the other.
pub open spec fn reconfig_run(stage: Reconfig, events: Seq<ReconfigEvent>) -> Reconfig
    decreases events.len(),
{
    if events.len() == 0 {
        stage
    } else {
        reconfig_next(reconfig_run(stage, events.drop_last()), events.last())
    }
}

/// The epoch at which the ledger stood before the bump, once that is known.
pub open spec fn epoch_before(stage: Reconfig) -> Option<u64> {
    match stage {
        Reconfig::Submitting { major, before } => Some(before.epoch),
        Reconfig::Following { before, target } => Some(before.epoch),
        _ => None,
    }
}

/// A bump that has taken effect has brought a later epoch: whatever was
/// reported on the way, the ledger at the end stands in an epoch after the
/// one in which the version was read.
pub proof fn lemma_reconfig_done_is_new_epoch(events: Seq<ReconfigEvent>)
    ensures
        reconfig_run(Reconfig::ReadingVersion, events) matches Reconfig::Done { state } ==> exists|
            j: int,
        |
            0 <= j < events.len() && (#[trigger] events[j] matches ReconfigEvent::Version {
                major,
                state: before,
            } && before.epoch < state.epoch),
{
    lemma_reconfig_course(events);
}

/// What is known of the bump in the course of events.
proof fn lemma_reconfig_course(events: Seq<ReconfigEvent>)
    ensures
        ({
            let stage = reconfig_run(Reconfig::ReadingVersion, events);
            &&& epoch_before(stage) matches Some(epoch) ==> exists|j: int|
                0 <= j < events.len() && (#[trigger] events[j] matches ReconfigEvent::Version {
                    major,
                    state: before,
                } && before.epoch == epoch)
            &&& stage matches Reconfig::Done { state } ==> exists|j: int|
                0 <= j < events.len() && (#[trigger] events[j] matches ReconfigEvent::Version {
                    major,
                    state: before,
                } && before.epoch < state.epoch)
        }),
    decreases events.len(),
{
    if events.len() > 0 {
        let shorter = events.drop_last();
        lemma_reconfig_course(shorter);
        let earlier = reconfig_run(Reconfig::ReadingVersion, shorter);
        let stage = reconfig_run(Reconfig::ReadingVersion, events);
        if epoch_before(earlier) is Some {
            let j = choose|j: int|
                0 <= j < shorter.len() && (#[trigger] shorter[j] matches ReconfigEvent::Version {
                    major,
                    state: before,
                } && before.epoch == epoch_before(earlier)->0);
            assert(events[j] == shorter[j]);
        }
        if let Reconfig::Done { state } = earlier {
            let j = choose|j: int|
                0 <= j < shorter.len() && (#[trigger] shorter[j] matches ReconfigEvent::Version {
                    major,
                    state: before,
                } && before.epoch < state.epoch);
            assert(events[j] == shorter[j]);
        }
        if earlier is ReadingVersion && events.last() is Version {
            assert(events[events.len() - 1] == events.last());
        }
    }
}

/// The line that reports a transaction.
pub open spec fn described(t: TransactionSummary) -> Seq<char> {
    match t {
        TransactionSummary::User { sequence_number, payload } => "user seq="@ + decimal(
            sequence_number as nat,
        ) + ", payload="@ + payload@,
        TransactionSummary::Other { kind } => kind@,
    }
}

/// The line that reports a transaction: for a user's transaction its
/// sequence number and payload, for any other the name of its kind.
pub fn describe_transaction(t: &TransactionSummary) -> (line: String)
    ensures
        line@ == described(*t),
{
    match t {
        TransactionSummary::User { sequence_number, payload } => {
            let mut line = String::from_str("user seq=");
            let number = node_name(*sequence_number);
            line.append(number.as_str());
            line.append(", payload=");
            line.append(payload.as_str());
            line
        },
        TransactionSummary::Other { kind } => kind.clone(),
    }
}

/// The load to put on a network, as it was asked for.
#[derive(Clone, Debug)]
pub struct EmitArgs<T> {
    /// Number of transactions to keep waiting in the mempool.
    pub mempool_backlog: usize,
    /// Transactions per second to aim at, if the load is to be steady.
    pub target_tps: Option<usize>,
    /// Seconds after which a transaction expires.
    pub txn_expiration_time_secs: u64,
    /// Seconds for which to emit.
    pub duration: u64,
    /// Share of invalid transactions.
    pub invalid_tx: usize,
    /// The kinds of transactions to send.
    pub transaction_type: Vec<T>,
    /// The weight of each kind; none where all kinds weigh the same.
    pub transaction_type_weights: Vec<usize>,
}

/// The load to put on a network, as it will be run.
#[derive(Clone, Debug)]
pub struct EmitPlan<T> {
    pub mempool_backlog: usize,
    pub target_tps: Option<usize>,
    pub txn_expiration_time_secs: u64,
    pub gas_price: u64,
    pub duration_secs: u64,
    /// Seconds between two reports of the statistics.
    pub stats_interval_secs: u64,
    pub invalid_transaction_ratio: usize,
    /// The kinds of transactions, each with its weight.
    pub transaction_mix: Vec<(T, usize)>,
    pub reuse_accounts: bool,
}

/// Why a load cannot be run as asked for.
#[derive(Clone, Copy, Debug, PartialEq, Eq, Structural)]
pub enum EmitError {
    /// There are weights, and not one for each kind of transaction.
    WeightsMismatch { kinds: usize, weights: usize },
}

/// Seconds between two reports of the statistics of a load that runs for
/// `duration` seconds: a fifth of the duration, no less than one second and
/// no more than ten.
pub open spec fn stats_interval(duration: u64) -> u64 {
    if duration / 5 < 1 {
        1
    } else if duration / 5 > 10 {
        10
    } else {
        duration / 5
    }
}

/// The kinds of transactions with their weights; each weighs one where no
/// weights are given.
pub open spec fn mix_of<T>(kinds: Seq<T>, weights: Seq<usize>) -> Seq<(T, usize)> {
    Seq::new(
        kinds.len(),
        |i: int|
            (
                kinds[i],
                if weights.len() == 0 {
                    1usize
                } else {
                    weights[i]
                },
            ),
    )
}

/// Whether the weights fit the kinds: there are none, or one for each kind.
pub open spec fn weights_fit<T>(kinds: Seq<T>, weights: Seq<usize>) -> bool {
    weights.len() == 0 || weights.len() == kinds.len()
}

/// The load to run on a network once its version has been bumped: what was
/// asked for, with the price of gas, the interval of the reports and the
/// weights of the kinds of transactions filled in.
pub fn emit_transactions_with_cluster<T: Copy>(args: &EmitArgs<T>, reuse_accounts: bool) -> (planned:
    Result<EmitPlan<T>, EmitError>)
    ensures
        !weights_fit(args.transaction_type@, args.transaction_type_weights@) ==> planned == Err::<
            EmitPlan<T>,
            EmitError,
        >(
            EmitError::WeightsMismatch {
                kinds: args.transaction_type.len(),
                weights: args.transaction_type_weights.len(),
            },
        ),
        weights_fit(args.transaction_type@, args.transaction_type_weights@) ==> {
            &&& planned matches Ok(plan)
            &&& plan.transaction_mix@ == mix_of(args.transaction_type@, args.transaction_type_weights@)
            &&& plan.stats_interval_secs == stats_interval(args.duration)
            &&& plan.duration_secs == args.duration
            &&& plan.gas_price == GAS_UNIT_PRICE
            &&& plan.txn_expiration_time_secs == args.txn_expiration_time_secs
            &&& plan.invalid_transaction_ratio == args.invalid_tx
            &&& plan.mempool_backlog == args.mempool_backlog
            &&& plan.target_tps == args.target_tps
            &&& plan.reuse_accounts == reuse_accounts
        },
{
    let kinds: usize = args.transaction_type.len();
    let weights: usize = args.transaction_type_weights.len();
    if weights != 0 && weights != kinds {
        return Err(EmitError::WeightsMismatch { kinds, weights });
    }
    let mut mix: Vec<(T, usize)> = Vec::new();
    let mut i: usize = 0;
    while i < kinds
        invariant
            i <= kinds,
            kinds == args.transaction_type@.len(),
            weights == args.transaction_type_weights@.len(),
            weights == 0 || weights == kinds,
            mix@ == mix_of(args.transaction_type@, args.transaction_type_weights@).subrange(
                0,
                i as int,
            ),
        decreases kinds - i,
    {
        let weight: usize = if weights == 0 {
            1
        } else {
            args.transaction_type_weights[i]
        };
        mix.push((args.transaction_type[i], weight));
        assert(mix@ =~= mix_of(args.transaction_type@, args.transaction_type_weights@).subrange(
            0,
            i + 1,
        ));
        i = i + 1;
    }
    assert(mix@ =~= mix_of(args.transaction_type@, args.transaction_type_weights@));
    let fifth: u64 = args.duration / 5;
    let interval: u64 = if fifth < 1 {
        1
    } else if fifth > 10 {
        10
    } else {
        fifth
    };
    Ok(
        EmitPlan {
            mempool_backlog: args.mempool_backlog,
            target_tps: args.target_tps,
            txn_expiration_time_secs: args.txn_expiration_time_secs,
            gas_price: GAS_UNIT_PRICE,
            duration_secs: args.duration,
            stats_interval_secs: interval,
            invalid_transaction_ratio: args.invalid_tx,
            transaction_mix: mix,
            reuse_accounts,
        },
    )
}

} // verus!
