use local_swarm::error::SwarmError;
use local_swarm::launch::{
    LaunchAction, LaunchEvent, Stage, Supervision, Watched, LAUNCH_TIMEOUT_MILLIS,
    STARTUP_ATTEMPTS, STARTUP_PAUSE_MILLIS,
};
use local_swarm::node::{HealthCheck, PeerId};

fn id(n: u128) -> PeerId {
    PeerId { hi: 0, lo: n }
}

fn watched(count: u128) -> Vec<Watched> {
    (0..count).map(|i| Watched { peer_id: id(i), name: i.to_string() }).collect()
}

fn healthy() -> LaunchEvent {
    LaunchEvent::Probed(HealthCheck::Healthy)
}

fn not_ready() -> LaunchEvent {
    LaunchEvent::Probed(HealthCheck::Failure("not ready".to_string()))
}

// Supervision of `count` validators, started and with the clock read at `now`.
fn probing(count: u128, now: u64) -> Supervision {
    let mut s = Supervision::launching(watched(count), LAUNCH_TIMEOUT_MILLIS);
    for _ in 0..count {
        s.step(LaunchEvent::Started);
    }
    assert_eq!(s.action(), LaunchAction::ReadClock);
    s.step(LaunchEvent::Now(now));
    s
}

#[test]
fn the_constants_of_a_launch() {
    assert_eq!(STARTUP_ATTEMPTS, 30);
    assert_eq!(STARTUP_PAUSE_MILLIS, 1000);
    assert_eq!(LAUNCH_TIMEOUT_MILLIS, 60000);
}

#[test]
fn a_launch_goes_through_its_stages() {
    let mut s = Supervision::launching(watched(2), LAUNCH_TIMEOUT_MILLIS);
    assert_eq!(s.stage(), Stage::Starting);
    assert_eq!(s.action(), LaunchAction::Start(id(0)));
    assert_eq!(s.step(LaunchEvent::Started), LaunchAction::Start(id(1)));
    assert_eq!(s.step(LaunchEvent::Started), LaunchAction::ReadClock);
    assert_eq!(s.step(LaunchEvent::Now(5000)), LaunchAction::Probe(id(0)));
    assert_eq!(s.step(healthy()), LaunchAction::Probe(id(1)));
    assert_eq!(
        s.step(healthy()),
        LaunchAction::WaitForConnectivity { deadline_millis: 65000 }
    );
    assert_eq!(s.stage(), Stage::Connectivity);
    assert_eq!(s.step(LaunchEvent::Passed), LaunchAction::CheckLiveness { deadline_millis: 65000 });
    assert_eq!(s.step(LaunchEvent::Passed), LaunchAction::Done);
    assert_eq!(s.stage(), Stage::Alive);
    assert_eq!(s.step(LaunchEvent::Woke), LaunchAction::Done);
    assert_eq!(s.outcome(), Some(Ok(())));
}

#[test]
fn waiting_starts_with_the_clock() {
    let mut s = Supervision::waiting(watched(1), 2500);
    assert_eq!(s.stage(), Stage::Clock);
    assert_eq!(s.action(), LaunchAction::ReadClock);
    assert_eq!(s.step(LaunchEvent::Now(100)), LaunchAction::Probe(id(0)));
    assert_eq!(s.step(healthy()), LaunchAction::WaitForConnectivity { deadline_millis: 2600 });
}

#[test]
fn the_deadline_is_the_latest_time_where_the_sum_is_beyond_it() {
    let mut s = Supervision::waiting(watched(0), 10);
    assert_eq!(
        s.step(LaunchEvent::Now(u64::MAX - 3)),
        LaunchAction::WaitForConnectivity { deadline_millis: u64::MAX }
    );
    let mut s = Supervision::waiting(watched(0), 10);
    assert_eq!(
        s.step(LaunchEvent::Now(u64::MAX - 10)),
        LaunchAction::WaitForConnectivity { deadline_millis: u64::MAX }
    );
    let mut s = Supervision::waiting(watched(0), 10);
    assert_eq!(
        s.step(LaunchEvent::Now(u64::MAX - 11)),
        LaunchAction::WaitForConnectivity { deadline_millis: u64::MAX - 1 }
    );
}

#[test]
fn a_swarm_without_validators_has_nothing_to_start_or_probe() {
    let mut s = Supervision::launching(watched(0), LAUNCH_TIMEOUT_MILLIS);
    assert_eq!(s.action(), LaunchAction::ReadClock);
    assert_eq!(s.step(LaunchEvent::Now(0)), LaunchAction::WaitForConnectivity { deadline_millis: 60000 });
}

#[test]
fn a_validator_that_cannot_be_started_ends_the_launch() {
    let mut s = Supervision::launching(watched(3), LAUNCH_TIMEOUT_MILLIS);
    s.step(LaunchEvent::Started);
    assert_eq!(s.step(LaunchEvent::StartFailed("no binary".to_string())), LaunchAction::GiveUp);
    assert_eq!(s.stage(), Stage::Failed);
    assert_eq!(
        s.outcome(),
        Some(Err(SwarmError::StartFailed { name: "1".to_string(), reason: "no binary".to_string() }))
    );
}

#[test]
fn a_validator_that_is_not_ready_is_left_for_the_next_round() {
    let mut s = probing(3, 0);
    assert_eq!(s.action(), LaunchAction::Probe(id(0)));
    assert_eq!(s.step(healthy()), LaunchAction::Probe(id(1)));
    // validator 1 is not ready: the round goes on with validator 2
    assert_eq!(s.step(not_ready()), LaunchAction::Probe(id(2)));
    assert_eq!(s.step(healthy()), LaunchAction::Sleep { millis: 1000 });
    assert_eq!(s.attempt(), 0);
    // the next round probes validator 1 alone
    assert_eq!(s.step(LaunchEvent::Woke), LaunchAction::Probe(id(1)));
    assert_eq!(s.attempt(), 1);
    assert_eq!(s.step(healthy()), LaunchAction::WaitForConnectivity { deadline_millis: 60000 });
}

#[test]
fn every_validator_that_is_not_healthy_yet_is_probed_once_in_a_round() {
    let mut s = probing(4, 0);
    // round 0: nobody is ready
    assert_eq!(s.action(), LaunchAction::Probe(id(0)));
    assert_eq!(s.step(not_ready()), LaunchAction::Probe(id(1)));
    assert_eq!(s.step(not_ready()), LaunchAction::Probe(id(2)));
    assert_eq!(s.step(not_ready()), LaunchAction::Probe(id(3)));
    assert_eq!(s.step(not_ready()), LaunchAction::Sleep { millis: 1000 });
    // round 1: validators 1 and 3 get healthy
    assert_eq!(s.step(LaunchEvent::Woke), LaunchAction::Probe(id(0)));
    assert_eq!(s.step(not_ready()), LaunchAction::Probe(id(1)));
    assert_eq!(s.step(healthy()), LaunchAction::Probe(id(2)));
    assert_eq!(s.step(not_ready()), LaunchAction::Probe(id(3)));
    assert_eq!(s.step(healthy()), LaunchAction::Sleep { millis: 1000 });
    // round 2: only validators 0 and 2 are probed
    assert_eq!(s.step(LaunchEvent::Woke), LaunchAction::Probe(id(0)));
    assert_eq!(s.step(healthy()), LaunchAction::Probe(id(2)));
    assert_eq!(s.step(not_ready()), LaunchAction::Sleep { millis: 1000 });
    // round 3: only validator 2 is probed
    assert_eq!(s.step(LaunchEvent::Woke), LaunchAction::Probe(id(2)));
    assert_eq!(s.attempt(), 3);
    assert_eq!(s.step(healthy()), LaunchAction::WaitForConnectivity { deadline_millis: 60000 });
}

#[test]
fn a_later_validator_gets_healthy_in_the_round_in_which_an_earlier_one_is_not_ready() {
    let mut s = probing(2, 0);
    assert_eq!(s.step(not_ready()), LaunchAction::Probe(id(1)));
    assert_eq!(s.step(healthy()), LaunchAction::Sleep { millis: 1000 });
    assert_eq!(s.step(LaunchEvent::Woke), LaunchAction::Probe(id(0)));
    // validator 1 is not probed again
    assert_eq!(s.step(not_ready()), LaunchAction::Sleep { millis: 1000 });
    assert_eq!(s.step(LaunchEvent::Woke), LaunchAction::Probe(id(0)));
    assert_eq!(s.step(healthy()), LaunchAction::WaitForConnectivity { deadline_millis: 60000 });
}

#[test]
fn a_validator_that_is_not_running_ends_the_launch() {
    let mut s = probing(2, 0);
    s.step(healthy());
    assert_eq!(
        s.step(LaunchEvent::Probed(HealthCheck::NotRunning("exited with 1".to_string()))),
        LaunchAction::GiveUp
    );
    assert_eq!(
        s.outcome(),
        Some(Err(SwarmError::NodeNotRunning {
            name: "1".to_string(),
            reason: "exited with 1".to_string(),
        }))
    );
}

#[test]
fn a_validator_of_which_nothing_can_be_learnt_ends_the_launch() {
    let mut s = probing(2, 0);
    assert_eq!(
        s.step(LaunchEvent::Probed(HealthCheck::Unknown("connection reset".to_string()))),
        LaunchAction::GiveUp
    );
    assert_eq!(
        s.outcome(),
        Some(Err(SwarmError::NodeNotRunning {
            name: "0".to_string(),
            reason: "connection reset".to_string(),
        }))
    );
}

#[test]
fn a_validator_that_never_gets_healthy_makes_the_launch_time_out() {
    let mut s = probing(3, 0);
    let mut pauses = 0;
    let mut probes_of_the_sick = 0;
    let mut action = s.action();
    loop {
        action = match action {
            LaunchAction::Probe(peer) if peer == id(1) => {
                probes_of_the_sick += 1;
                s.step(not_ready())
            }
            LaunchAction::Probe(_) => s.step(healthy()),
            LaunchAction::Sleep { millis } => {
                assert_eq!(millis, 1000);
                pauses += 1;
                s.step(LaunchEvent::Woke)
            }
            LaunchAction::GiveUp => break,
            other => panic!("the launch went on to {:?}", other),
        };
    }
    assert_eq!(pauses, 30);
    assert_eq!(probes_of_the_sick, 30);
    assert_eq!(s.stage(), Stage::Failed);
    assert_eq!(s.outcome(), Some(Err(SwarmError::LaunchTimedOut)));
}

#[test]
fn a_validator_that_gets_healthy_in_the_last_round_is_in_time() {
    let mut s = probing(1, 0);
    for round in 0..29 {
        assert_eq!(s.attempt(), round);
        assert_eq!(s.step(not_ready()), LaunchAction::Sleep { millis: 1000 });
        assert_eq!(s.step(LaunchEvent::Woke), LaunchAction::Probe(id(0)));
    }
    assert_eq!(s.attempt(), 29);
    assert_eq!(s.step(healthy()), LaunchAction::WaitForConnectivity { deadline_millis: 60000 });
}

#[test]
fn a_timed_out_launch_stays_failed() {
    let mut s = probing(1, 0);
    for _ in 0..30 {
        s.step(not_ready());
        s.step(LaunchEvent::Woke);
    }
    assert_eq!(s.action(), LaunchAction::GiveUp);
    assert_eq!(s.step(healthy()), LaunchAction::GiveUp);
    assert_eq!(s.step(LaunchEvent::Passed), LaunchAction::GiveUp);
    assert_eq!(s.step(LaunchEvent::Woke), LaunchAction::GiveUp);
    assert_eq!(s.outcome(), Some(Err(SwarmError::LaunchTimedOut)));
}

#[test]
fn validators_that_do_not_connect_end_the_launch() {
    let mut s = probing(1, 0);
    s.step(healthy());
    assert_eq!(s.step(LaunchEvent::NotPassed("deadline".to_string())), LaunchAction::GiveUp);
    assert_eq!(
        s.outcome(),
        Some(Err(SwarmError::ConnectivityFailed { reason: "deadline".to_string() }))
    );
}

#[test]
fn a_ledger_that_does_not_move_ends_the_launch() {
    let mut s = probing(1, 0);
    s.step(healthy());
    s.step(LaunchEvent::Passed);
    assert_eq!(s.step(LaunchEvent::NotPassed("stuck".to_string())), LaunchAction::GiveUp);
    assert_eq!(s.outcome(), Some(Err(SwarmError::LivenessFailed { reason: "stuck".to_string() })));
}

#[test]
fn what_was_not_waited_for_ends_the_launch() {
    let mut s = Supervision::launching(watched(1), 1);
    assert_eq!(s.step(LaunchEvent::Woke), LaunchAction::GiveUp);
    assert_eq!(s.outcome(), Some(Err(SwarmError::UnexpectedEvent)));
    let mut s = Supervision::waiting(watched(1), 1);
    assert_eq!(s.step(LaunchEvent::Started), LaunchAction::GiveUp);
    let mut s = probing(1, 0);
    assert_eq!(s.step(LaunchEvent::Now(3)), LaunchAction::GiveUp);
    let mut s = probing(1, 0);
    s.step(not_ready());
    assert_eq!(s.step(healthy()), LaunchAction::GiveUp);
    let mut s = probing(1, 0);
    s.step(healthy());
    assert_eq!(s.step(healthy()), LaunchAction::GiveUp);
    assert_eq!(s.outcome(), Some(Err(SwarmError::UnexpectedEvent)));
}

#[test]
fn supervision_that_is_not_over_has_no_outcome() {
    assert_eq!(Supervision::launching(watched(1), 1).outcome(), None);
    assert_eq!(probing(2, 0).outcome(), None);
    let mut s = probing(1, 0);
    s.step(healthy());
    assert_eq!(s.outcome(), None);
}
