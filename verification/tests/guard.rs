use local_swarm::guard::{
    is_announced, ActiveNodesGuard, GrabPolicy, GrabStep, BACKOFF_SECS, LOW_CONTENTION_THRESHOLD,
};

fn admitted(step: GrabStep) -> ActiveNodesGuard {
    match step {
        GrabStep::Admitted(guard) => guard,
        GrabStep::Wait { .. } => panic!("the request was expected to be admitted"),
    }
}

fn denied(step: GrabStep) -> (u64, bool, u64) {
    match step {
        GrabStep::Admitted(_) => panic!("the request was expected to wait"),
        GrabStep::Wait { attempts, announce, backoff_secs } => (attempts, announce, backoff_secs),
    }
}

#[test]
fn grab_within_capacity_is_admitted() {
    let policy = GrabPolicy::with_capacity(8);
    let mut counter: usize = 3;
    let guard = admitted(ActiveNodesGuard::grab_with(&policy, 4, &mut counter, 0));
    assert_eq!(guard.slots(), 4);
    assert_eq!(counter, 7);
    guard.release(&mut counter);
    assert_eq!(counter, 3);
}

#[test]
fn standard_policy_has_the_usual_threshold_and_backoff() {
    let policy = GrabPolicy::with_capacity(16);
    assert_eq!(policy.capacity, 16);
    assert_eq!(policy.low_contention, 2);
    assert_eq!(policy.backoff_secs, 2);
    assert_eq!(LOW_CONTENTION_THRESHOLD, 2);
    assert_eq!(BACKOFF_SECS, 2);
}

#[test]
fn request_up_to_exactly_the_capacity_is_admitted() {
    let policy = GrabPolicy::with_capacity(8);
    let mut counter: usize = 5;
    assert!(policy.decide(5, 3));
    let guard = admitted(ActiveNodesGuard::grab_with(&policy, 3, &mut counter, 0));
    assert_eq!(counter, 8);
    guard.release(&mut counter);
    assert_eq!(counter, 5);
}

#[test]
fn request_over_capacity_waits_when_usage_is_above_threshold() {
    let policy = GrabPolicy::with_capacity(8);
    let mut counter: usize = 3;
    assert!(!policy.decide(3, 6));
    let (attempts, announce, backoff) =
        denied(ActiveNodesGuard::grab_with(&policy, 6, &mut counter, 0));
    assert_eq!(counter, 3);
    assert_eq!(attempts, 1);
    assert!(announce);
    assert_eq!(backoff, 2);
}

#[test]
fn request_over_capacity_is_admitted_at_low_contention() {
    let policy = GrabPolicy::with_capacity(4);
    for active in 0..=2usize {
        let mut counter = active;
        let guard = admitted(ActiveNodesGuard::grab_with(&policy, 100, &mut counter, 0));
        assert_eq!(counter, active + 100);
        assert_eq!(guard.slots(), 100);
        guard.release(&mut counter);
        assert_eq!(counter, active);
    }
}

#[test]
fn denied_request_is_admitted_once_usage_drops() {
    let policy = GrabPolicy::with_capacity(8);
    let mut counter: usize = 0;
    let first = admitted(ActiveNodesGuard::grab_with(&policy, 6, &mut counter, 0));
    let (attempts, _, _) = denied(ActiveNodesGuard::grab_with(&policy, 4, &mut counter, 0));
    assert_eq!(counter, 6);
    let (attempts, _, _) = denied(ActiveNodesGuard::grab_with(&policy, 4, &mut counter, attempts));
    assert_eq!(attempts, 2);
    first.release(&mut counter);
    assert_eq!(counter, 0);
    let second = admitted(ActiveNodesGuard::grab_with(&policy, 4, &mut counter, attempts));
    assert_eq!(counter, 4);
    second.release(&mut counter);
    assert_eq!(counter, 0);
}

#[test]
fn guards_whose_sum_is_within_capacity_are_all_admitted() {
    let policy = GrabPolicy::with_capacity(10);
    let requests: [usize; 4] = [3, 2, 4, 1];
    let mut counter: usize = 0;
    let mut guards = Vec::new();
    for slots in requests {
        guards.push(admitted(ActiveNodesGuard::grab_with(&policy, slots, &mut counter, 0)));
    }
    assert_eq!(counter, 10);
    while let Some(guard) = guards.pop() {
        guard.release(&mut counter);
    }
    assert_eq!(counter, 0);
}

#[test]
fn contention_is_announced_at_powers_of_two() {
    let announced: Vec<u64> = (0..=70u64).filter(|n| is_announced(*n)).collect();
    assert_eq!(announced, vec![1, 2, 4, 8, 16, 32, 64]);
    assert!(is_announced(1 << 63));
    assert!(!is_announced(u64::MAX));
    assert!(!is_announced(0));
}

#[test]
fn attempts_are_counted_and_stop_at_the_largest_value() {
    let policy = GrabPolicy::with_capacity(4);
    let mut counter: usize = 4;
    let (attempts, announce, _) = denied(ActiveNodesGuard::grab_with(&policy, 1, &mut counter, 2));
    assert_eq!(attempts, 3);
    assert!(!announce);
    let (attempts, announce, _) = denied(ActiveNodesGuard::grab_with(&policy, 1, &mut counter, 3));
    assert_eq!(attempts, 4);
    assert!(announce);
    let (attempts, announce, _) =
        denied(ActiveNodesGuard::grab_with(&policy, 1, &mut counter, u64::MAX));
    assert_eq!(attempts, u64::MAX);
    assert!(!announce);
}

#[test]
fn custom_threshold_and_backoff_are_honoured() {
    let policy = GrabPolicy { capacity: 4, low_contention: 0, backoff_secs: 7 };
    let mut counter: usize = 1;
    let (_, _, backoff) = denied(ActiveNodesGuard::grab_with(&policy, 4, &mut counter, 0));
    assert_eq!(backoff, 7);
    assert_eq!(counter, 1);
    let mut idle: usize = 0;
    let guard = admitted(ActiveNodesGuard::grab_with(&policy, 9, &mut idle, 0));
    assert_eq!(idle, 9);
    guard.release(&mut idle);
}

#[test]
fn host_policy_has_at_least_one_slot() {
    let policy = GrabPolicy::host();
    assert!(policy.capacity >= 1);
    assert_eq!(policy.capacity, num_cpus::get());
    assert_eq!(policy.low_contention, 2);
    assert_eq!(policy.backoff_secs, 2);
}

#[test]
fn grab_on_this_host_admits_at_low_contention_and_within_one_slot() {
    let mut counter: usize = 2;
    let guard = admitted(ActiveNodesGuard::grab(1000, &mut counter, 0));
    assert_eq!(counter, 1002);
    let (attempts, announce, backoff) = denied(ActiveNodesGuard::grab(usize::MAX / 2, &mut counter, 0));
    assert_eq!((attempts, announce, backoff), (1, true, 2));
    assert_eq!(counter, 1002);
    guard.release(&mut counter);
    assert_eq!(counter, 2);
}

#[test]
fn grab_on_this_host_follows_the_number_of_processing_units() {
    let capacity = num_cpus::get();
    let mut counter: usize = 3;
    let step = ActiveNodesGuard::grab(capacity, &mut counter, 0);
    // usage 3 is above the threshold, so capacity + 3 slots never fit
    let (attempts, _, _) = denied(step);
    assert_eq!(attempts, 1);
    assert_eq!(counter, 3);
    if capacity > 3 {
        let guard = admitted(ActiveNodesGuard::grab(capacity - 3, &mut counter, 0));
        assert_eq!(counter, capacity);
        guard.release(&mut counter);
        assert_eq!(counter, 3);
    }
}
