use local_swarm::emitter::{
    describe_transaction, emit_transactions_with_cluster, reconfig, EmitArgs, EmitError,
    LedgerState, Reconfig, ReconfigAction, ReconfigError, ReconfigEvent, TransactionSummary,
};

fn at(epoch: u64, version: u64) -> LedgerState {
    LedgerState { epoch, version }
}

fn args(duration: u64, kinds: Vec<u8>, weights: Vec<usize>) -> EmitArgs<u8> {
    EmitArgs {
        mempool_backlog: 3000,
        target_tps: Some(50),
        txn_expiration_time_secs: 60,
        duration,
        invalid_tx: 10,
        transaction_type: kinds,
        transaction_type_weights: weights,
    }
}

#[test]
fn reconfig_succeeds_when_the_epoch_advances() {
    let stage = Reconfig::ReadingVersion;
    assert_eq!(stage.action(), ReconfigAction::ReadVersion);
    let stage = reconfig(stage, ReconfigEvent::Version { major: 5, state: at(2, 100) });
    assert_eq!(stage, Reconfig::Submitting { major: 6, before: at(2, 100) });
    assert_eq!(stage.action(), ReconfigAction::Submit { major: 6, max_gas_amount: 100000 });
    let stage = reconfig(stage, ReconfigEvent::Committed { version: Some(120) });
    assert_eq!(stage, Reconfig::Following { before: at(2, 100), target: 121 });
    assert_eq!(stage.action(), ReconfigAction::WaitForVersion(121));
    let stage = reconfig(stage, ReconfigEvent::Reached(at(3, 121)));
    assert_eq!(stage, Reconfig::Done { state: at(3, 121) });
    assert_eq!(stage.action(), ReconfigAction::Stop);
}

#[test]
fn reconfig_fails_when_the_epoch_does_not_advance() {
    let stage = reconfig(Reconfig::ReadingVersion, ReconfigEvent::Version { major: 1, state: at(7, 10) });
    let stage = reconfig(stage, ReconfigEvent::Committed { version: Some(11) });
    let same = reconfig(stage.clone(), ReconfigEvent::Reached(at(7, 12)));
    assert_eq!(same, Reconfig::Failed(ReconfigError::EpochNotAdvanced { before: 7, after: 7 }));
    let earlier = reconfig(stage, ReconfigEvent::Reached(at(6, 12)));
    assert_eq!(earlier, Reconfig::Failed(ReconfigError::EpochNotAdvanced { before: 7, after: 6 }));
    assert_eq!(earlier.action(), ReconfigAction::Stop);
}

#[test]
fn a_rejected_transaction_is_reported_with_the_last_transactions() {
    let stage = reconfig(Reconfig::ReadingVersion, ReconfigEvent::Version { major: 1, state: at(7, 10) });
    let stage = reconfig(stage, ReconfigEvent::SubmitFailed("out of gas".to_string()));
    assert_eq!(stage, Reconfig::Diagnosing { reason: "out of gas".to_string() });
    assert_eq!(stage.action(), ReconfigAction::ReadAccountTransactions);
    let last = vec![
        TransactionSummary::User { sequence_number: 4, payload: "SetVersion".to_string() },
        TransactionSummary::Other { kind: "block_metadata_transaction".to_string() },
    ];
    let stage = reconfig(stage, ReconfigEvent::AccountTransactions(last.clone()));
    assert_eq!(
        stage,
        Reconfig::Failed(ReconfigError::Rejected {
            reason: "out of gas".to_string(),
            last_transactions: last,
        })
    );
}

#[test]
fn a_rejected_transaction_is_reported_even_without_transactions() {
    let stage = Reconfig::Diagnosing { reason: "expired".to_string() };
    let stage = reconfig(stage, ReconfigEvent::AccountTransactions(Vec::new()));
    assert_eq!(
        stage,
        Reconfig::Failed(ReconfigError::Rejected {
            reason: "expired".to_string(),
            last_transactions: Vec::new(),
        })
    );
}

#[test]
fn reconfig_fails_when_the_network_cannot_be_read() {
    let stage = reconfig(Reconfig::ReadingVersion, ReconfigEvent::VersionFailed("refused".to_string()));
    assert_eq!(stage, Reconfig::Failed(ReconfigError::VersionUnavailable("refused".to_string())));
    let stage = Reconfig::Following { before: at(1, 1), target: 5 };
    let stage = reconfig(stage, ReconfigEvent::WaitFailed("timeout".to_string()));
    assert_eq!(stage, Reconfig::Failed(ReconfigError::LedgerUnavailable("timeout".to_string())));
}

#[test]
fn reconfig_fails_on_a_transaction_without_version() {
    let stage = Reconfig::Submitting { major: 2, before: at(1, 1) };
    let stage = reconfig(stage, ReconfigEvent::Committed { version: None });
    assert_eq!(stage, Reconfig::Failed(ReconfigError::NotCommitted));
}

#[test]
fn reconfig_fails_where_numbers_run_out() {
    let stage = reconfig(
        Reconfig::ReadingVersion,
        ReconfigEvent::Version { major: u64::MAX, state: at(1, 1) },
    );
    assert_eq!(stage, Reconfig::Failed(ReconfigError::VersionOverflow));
    let stage = Reconfig::Submitting { major: 2, before: at(1, 1) };
    let stage = reconfig(stage, ReconfigEvent::Committed { version: Some(u64::MAX) });
    assert_eq!(stage, Reconfig::Failed(ReconfigError::VersionOverflow));
    let stage = reconfig(
        Reconfig::ReadingVersion,
        ReconfigEvent::Version { major: u64::MAX - 1, state: at(1, 1) },
    );
    assert_eq!(stage, Reconfig::Submitting { major: u64::MAX, before: at(1, 1) });
}

#[test]
fn reconfig_fails_on_what_it_did_not_ask_for() {
    let unexpected = Reconfig::Failed(ReconfigError::UnexpectedEvent);
    assert_eq!(reconfig(Reconfig::ReadingVersion, ReconfigEvent::Reached(at(1, 1))), unexpected);
    assert_eq!(
        reconfig(Reconfig::ReadingVersion, ReconfigEvent::Committed { version: Some(1) }),
        unexpected
    );
    assert_eq!(
        reconfig(
            Reconfig::Submitting { major: 2, before: at(1, 1) },
            ReconfigEvent::Version { major: 1, state: at(1, 1) }
        ),
        unexpected
    );
    assert_eq!(
        reconfig(Reconfig::Diagnosing { reason: String::new() }, ReconfigEvent::Reached(at(1, 1))),
        unexpected
    );
    assert_eq!(
        reconfig(
            Reconfig::Following { before: at(1, 1), target: 2 },
            ReconfigEvent::AccountTransactions(Vec::new())
        ),
        unexpected
    );
}

#[test]
fn a_finished_reconfig_stays_as_it_is() {
    let done = Reconfig::Done { state: at(3, 9) };
    assert_eq!(reconfig(done.clone(), ReconfigEvent::Reached(at(9, 9))), done);
    assert_eq!(reconfig(done.clone(), ReconfigEvent::SubmitFailed("x".to_string())), done);
    let failed = Reconfig::Failed(ReconfigError::NotCommitted);
    assert_eq!(reconfig(failed.clone(), ReconfigEvent::Reached(at(9, 9))), failed);
    assert_eq!(
        reconfig(failed.clone(), ReconfigEvent::Version { major: 1, state: at(1, 1) }),
        failed
    );
}

#[test]
fn transactions_are_described_for_the_report() {
    assert_eq!(
        describe_transaction(&TransactionSummary::User {
            sequence_number: 17,
            payload: "EntryFunction(set_version)".to_string(),
        }),
        "user seq=17, payload=EntryFunction(set_version)"
    );
    assert_eq!(
        describe_transaction(&TransactionSummary::User { sequence_number: 0, payload: String::new() }),
        "user seq=0, payload="
    );
    assert_eq!(
        describe_transaction(&TransactionSummary::Other { kind: "genesis_transaction".to_string() }),
        "genesis_transaction"
    );
}

#[test]
fn statistics_are_reported_every_fifth_of_the_duration_within_bounds() {
    for (duration, interval) in
        [(0u64, 1u64), (1, 1), (4, 1), (5, 1), (9, 1), (10, 2), (25, 5), (49, 9), (50, 10), (51, 10), (1000, 10), (u64::MAX, 10)]
    {
        let plan = emit_transactions_with_cluster(&args(duration, vec![1], vec![]), false).unwrap();
        assert_eq!(plan.stats_interval_secs, interval, "for a duration of {}", duration);
        assert_eq!(plan.duration_secs, duration);
    }
}

#[test]
fn kinds_without_weights_weigh_one_each() {
    let plan = emit_transactions_with_cluster(&args(60, vec![7, 8, 9], vec![]), false).unwrap();
    assert_eq!(plan.transaction_mix, vec![(7, 1), (8, 1), (9, 1)]);
}

#[test]
fn kinds_with_weights_keep_their_weights() {
    let plan = emit_transactions_with_cluster(&args(60, vec![7, 8, 9], vec![5, 0, 20]), true).unwrap();
    assert_eq!(plan.transaction_mix, vec![(7, 5), (8, 0), (9, 20)]);
    assert!(plan.reuse_accounts);
}

#[test]
fn weights_that_do_not_fit_the_kinds_are_refused() {
    let err = emit_transactions_with_cluster(&args(60, vec![7, 8, 9], vec![5, 1]), false).unwrap_err();
    assert_eq!(err, EmitError::WeightsMismatch { kinds: 3, weights: 2 });
    let err = emit_transactions_with_cluster(&args(60, vec![], vec![1]), false).unwrap_err();
    assert_eq!(err, EmitError::WeightsMismatch { kinds: 0, weights: 1 });
}

#[test]
fn the_plan_carries_what_was_asked_for() {
    let plan = emit_transactions_with_cluster(&args(30, vec![], vec![]), false).unwrap();
    assert_eq!(plan.mempool_backlog, 3000);
    assert_eq!(plan.target_tps, Some(50));
    assert_eq!(plan.txn_expiration_time_secs, 60);
    assert_eq!(plan.gas_price, 1);
    assert_eq!(plan.invalid_transaction_ratio, 10);
    assert!(plan.transaction_mix.is_empty());
    assert!(!plan.reuse_accounts);
    assert_eq!(plan.stats_interval_secs, 6);
}
