//! Admission of node slots on a shared host.
//!
//! All swarms of one process share a counter of active node slots.  A swarm
//! asks for its slots before it spawns anything; the request is admitted or
//! told to wait.  The counter is only ever touched under exclusive access,
//! which the caller provides: every function here takes it as `&mut usize`.

use vstd::prelude::*;
use vstd::arithmetic::power2::is_pow2;

verus! {

/// Usage at or below which a request is admitted whatever its size.
pub const LOW_CONTENTION_THRESHOLD: usize = 2;

/// Seconds to pause between two admission attempts.
pub const BACKOFF_SECS: u64 = 2;

/// The tunable parameters of admission.
#[derive(Clone, Copy, Debug, PartialEq, Eq, Structural)]
pub struct GrabPolicy {
    /// Number of slots the host can run side by side.
    pub capacity: usize,
    /// Usage at or below which any request is admitted.
    pub low_contention: usize,
    /// Seconds to pause after a denied attempt.
    pub backoff_secs: u64,
}

/// Whether a request for `slots` is admitted while `active` slots are held.
///
/// Either usage is low, and then the size of the request does not matter, so
/// that a swarm larger than the host still gets to run; or the request fits
/// into what is left of the capacity.
pub open spec fn admits(policy: GrabPolicy, active: nat, slots: nat) -> bool {
    active <= policy.low_contention || active + slots <= policy.capacity
}

/// The counter after a request for `slots` was decided on at usage
/// `active`: with the slots on top if the request was admitted, and as it
/// was if not.
pub open spec fn after_grab(policy: GrabPolicy, active: nat, slots: nat) -> nat {
    if admits(policy, active, slots) {
        active + slots
    } else {
        active
    }
}

/// The counter after `held` slots were given back at usage `active`.
pub open spec fn after_release(active: nat, held: nat) -> int {
    active - held
}

/// The sum of the first `n` requests of `requests`.
pub open spec fn total_slots(requests: Seq<nat>, n: nat) -> nat
    decreases n,
{
    if n == 0 || n > requests.len() {
        0
    } else {
        total_slots(requests, (n - 1) as nat) + requests[n - 1]
    }
}

/// The slots that the guards of `guards` hold together.
pub open spec fn held_by(guards: Seq<nat>) -> nat {
    total_slots(guards, guards.len())
}

/// Slots held by one swarm.  Whoever owns the value must give it back with
/// [`ActiveNodesGuard::release`], exactly once.
#[derive(Debug)]
pub struct ActiveNodesGuard {
    slots: usize,
}

/// What one admission attempt came to.
#[derive(Debug)]
pub enum GrabStep {
    /// The slots were added to the counter and are now held by the guard.
    Admitted(ActiveNodesGuard),
    /// The counter was left alone.  The caller pauses for `backoff_secs`
    /// seconds and tries again with `attempts`; it reports the contention
    /// if `announce` is set.
    Wait { attempts: u64, announce: bool, backoff_secs: u64 },
}

/// Number of processing units of this host, as `num_cpus::get` reports it.
/// The count depends on the machine and on the limits set for the process;
/// `num_cpus` documents that it is never zero, and no more is claimed here.
#[verifier::external_body]
fn host_capacity() -> (n: usize)
    ensures
        n >= 1,
{
    num_cpus::get()
}

impl GrabPolicy {
    /// The policy with the usual threshold and backoff for a given capacity.
    pub open spec fn standard(capacity: usize) -> GrabPolicy {
        GrabPolicy { capacity, low_contention: LOW_CONTENTION_THRESHOLD, backoff_secs: BACKOFF_SECS }
    }

    /// The policy for a host that runs `capacity` slots side by side, with
    /// the usual threshold and backoff.
    pub fn with_capacity(capacity: usize) -> (policy: GrabPolicy)
        ensures
            policy == GrabPolicy::standard(capacity),
    {
        GrabPolicy { capacity, low_contention: LOW_CONTENTION_THRESHOLD, backoff_secs: BACKOFF_SECS }
    }

    /// The policy for this host: one slot per processing unit.
    pub fn host() -> (policy: GrabPolicy)
        ensures
            policy.capacity >= 1,
            policy == GrabPolicy::standard(policy.capacity),
    {
        GrabPolicy::with_capacity(host_capacity())
    }

    /// Decides whether `slots` more are admitted on top of `active`.
    pub fn decide(&self, active: usize, slots: usize) -> (yes: bool)
        ensures
            yes == admits(*self, active as nat, slots as nat),
    {
        if active <= self.low_contention {
            true
        } else {
            match active.checked_add(slots) {
                Some(wanted) => wanted <= self.capacity,
                None => false,
            }
        }
    }
}

/// The attempt count after one more denial.  It stops at the largest value.
pub open spec fn next_attempt(attempts: u64) -> u64 {
    if attempts < u64::MAX {
        (attempts + 1) as u64
    } else {
        attempts
    }
}

/// `n & (n - 1)` is zero exactly for the powers of two.
proof fn lemma_single_bit(n: u64)
    requires
        n >= 1,
    ensures
        (n & ((n - 1) as u64)) == 0 <==> is_pow2(n as int),
    decreases n,
{
    reveal(is_pow2);
    if n == 1 {
        assert((1u64 & 0u64) == 0) by (bit_vector);
    } else {
        let h: u64 = n / 2;
        lemma_single_bit(h);
        assert(n >= 2 && h == n / 2 ==> ((n & ((n - 1) as u64)) == 0 <==> (n % 2 == 0 && (h & ((h
            - 1) as u64)) == 0))) by (bit_vector);
    }
}

/// Whether an attempt count is one at which contention is reported: the
/// powers of two, so that the reports thin out as the wait grows.
pub fn is_announced(attempts: u64) -> (yes: bool)
    ensures
        yes == is_pow2(attempts as int),
{
    if attempts == 0 {
        proof {
            reveal(is_pow2);
        }
        false
    } else {
        proof {
            lemma_single_bit(attempts);
        }
        (attempts & (attempts - 1)) == 0
    }
}

impl ActiveNodesGuard {
    /// Number of slots that the guard holds.
    pub closed spec fn held(&self) -> nat {
        self.slots as nat
    }

    /// Number of slots that the guard holds.
    pub fn slots(&self) -> (n: usize)
        ensures
            n == self.held(),
    {
        self.slots
    }

    /// One admission attempt under `policy`, made while the caller has
    /// exclusive access to `counter`; `attempts` counts the denials so far.
    ///
    /// An admitted request is added to the counter in the same step.  A
    /// denied one leaves the counter as it was.
    pub fn grab_with(policy: &GrabPolicy, slots: usize, counter: &mut usize, attempts: u64) -> (step:
        GrabStep)
        requires
            *old(counter) + slots <= usize::MAX,
        ensures
            *final(counter) == after_grab(*policy, *old(counter) as nat, slots as nat),
            admits(*policy, *old(counter) as nat, slots as nat) ==> {
                &&& step matches GrabStep::Admitted(guard)
                &&& guard.held() == slots
                &&& *final(counter) == *old(counter) + slots
            },
            !admits(*policy, *old(counter) as nat, slots as nat) ==> {
                &&& step == (GrabStep::Wait {
                    attempts: next_attempt(attempts),
                    announce: is_pow2(next_attempt(attempts) as int),
                    backoff_secs: policy.backoff_secs,
                })
                &&& *final(counter) == *old(counter)
            },
    {
        if policy.decide(*counter, slots) {
            *counter = *counter + slots;
            GrabStep::Admitted(ActiveNodesGuard { slots })
        } else {
            let attempts: u64 = if attempts < u64::MAX {
                attempts + 1
            } else {
                attempts
            };
            GrabStep::Wait { attempts, announce: is_announced(attempts), backoff_secs: policy.backoff_secs }
        }
    }

    /// One admission attempt on this host: the capacity is the number of
    /// its processing units, whatever that is found to be.
    pub fn grab(slots: usize, counter: &mut usize, attempts: u64) -> (step: GrabStep)
        requires
            *old(counter) + slots <= usize::MAX,
        ensures
            *old(counter) <= LOW_CONTENTION_THRESHOLD || *old(counter) + slots <= 1 ==> step is Admitted,
            step matches GrabStep::Admitted(guard) ==> {
                &&& guard.held() == slots
                &&& *final(counter) == *old(counter) + slots
            },
            step matches GrabStep::Wait { attempts: again, announce, backoff_secs } ==> {
                &&& *final(counter) == *old(counter)
                &&& *old(counter) > LOW_CONTENTION_THRESHOLD
                &&& again == next_attempt(attempts)
                &&& announce == is_pow2(again as int)
                &&& backoff_secs == BACKOFF_SECS
            },
    {
        let policy = GrabPolicy::host();
        ActiveNodesGuard::grab_with(&policy, slots, counter, attempts)
    }

    /// Gives the held slots back to the counter.
    pub fn release(self, counter: &mut usize)
        requires
            *old(counter) >= self.held(),
        ensures
            *final(counter) == after_release(*old(counter) as nat, self.held()),
            *final(counter) == *old(counter) - self.held(),
    {
        *counter = *counter - self.slots;
    }
}

/// Requests whose sum is within the capacity are all admitted, one after
/// the other, whatever their order: none of them has to wait.
pub proof fn lemma_within_capacity_all_admitted(policy: GrabPolicy, requests: Seq<nat>, i: int)
    requires
        total_slots(requests, requests.len()) <= policy.capacity,
        0 <= i < requests.len(),
    ensures
        admits(policy, total_slots(requests, i as nat), requests[i]),
{
    lemma_total_slots_grows(requests, (i + 1) as nat, requests.len());
}

/// The running total never shrinks.
pub proof fn lemma_total_slots_grows(requests: Seq<nat>, m: nat, n: nat)
    requires
        m <= n <= requests.len(),
    ensures
        total_slots(requests, m) <= total_slots(requests, n),
    decreases n,
{
    if m < n {
        lemma_total_slots_grows(requests, m, (n - 1) as nat);
    }
}

/// Lists that agree in their first `n` requests have the same sum there.
proof fn lemma_total_of_prefix(a: Seq<nat>, b: Seq<nat>, n: nat)
    requires
        n <= a.len(),
        n <= b.len(),
        forall|i: int| 0 <= i < n ==> a[i] == b[i],
    ensures
        total_slots(a, n) == total_slots(b, n),
    decreases n,
{
    if n > 0 {
        lemma_total_of_prefix(a, b, (n - 1) as nat);
    }
}

/// Without one of the guards, the others hold what all held less its slots.
proof fn lemma_held_without(guards: Seq<nat>, i: int)
    requires
        0 <= i < guards.len(),
    ensures
        held_by(guards.remove(i)) == held_by(guards) - guards[i],
    decreases guards.len(),
{
    let rest = guards.remove(i);
    let front = guards.drop_last();
    let n = (guards.len() - 1) as nat;
    lemma_total_of_prefix(guards, front, n);
    if i == n {
        assert(rest =~= front);
    } else {
        lemma_held_without(front, i);
        assert(rest.drop_last() =~= front.remove(i));
        assert(rest.last() == guards.last());
        lemma_total_of_prefix(rest, front.remove(i), (n - 1) as nat);
    }
}

/// The counter is the sum of what the live guards hold, and stays so: an
/// admitted request puts its slots on top as it becomes a guard, and a guard
/// that is released takes off its own.  No release brings the counter below
/// nothing.
pub proof fn lemma_counter_is_sum_of_guards(policy: GrabPolicy, guards: Seq<nat>, slots: nat, i: int)
    ensures
        admits(policy, held_by(guards), slots) ==> after_grab(policy, held_by(guards), slots)
            == held_by(guards.push(slots)),
        !admits(policy, held_by(guards), slots) ==> after_grab(policy, held_by(guards), slots)
            == held_by(guards),
        0 <= i < guards.len() ==> guards[i] <= held_by(guards) && after_release(
            held_by(guards),
            guards[i],
        ) == held_by(guards.remove(i)),
{
    let more = guards.push(slots);
    lemma_total_of_prefix(more, guards, guards.len());
    if 0 <= i < guards.len() {
        lemma_held_without(guards, i);
    }
}

/// Acquiring slots and giving them back leaves the counter where it was,
/// whatever others have acquired and released in between.
pub proof fn lemma_grab_release_cycle(policy: GrabPolicy, active: nat, slots: nat, others: int)
    requires
        admits(policy, active, slots),
        active + others >= 0,
    ensures
        after_release((after_grab(policy, active, slots) + others) as nat, slots) == active + others,
{
}

/// The first of the attempts at and behind `from` at which a request for
/// `slots` is admitted, where attempt `j` finds the usage `observed[j]`; the
/// number of attempts if it is admitted at none.
pub open spec fn admitted_at(policy: GrabPolicy, slots: nat, observed: Seq<nat>, from: int) -> int
    decreases observed.len() - from,
{
    if from < 0 || from >= observed.len() {
        observed.len() as int
    } else if admits(policy, observed[from], slots) {
        from
    } else {
        admitted_at(policy, slots, observed, from + 1)
    }
}

/// A request waits until usage lets it in, and no longer.  At every attempt
/// before the one that admits it, usage is above the threshold and the
/// request does not fit, and the attempt leaves the counter as it found it.
/// The attempt that admits it is the first to find usage at or below the
/// threshold, or the request fitting into the capacity, and it puts the
/// slots on the counter.
pub proof fn lemma_waits_until_usage_lets_in(
    policy: GrabPolicy,
    slots: nat,
    observed: Seq<nat>,
    from: int,
)
    requires
        0 <= from <= observed.len(),
    ensures
        from <= admitted_at(policy, slots, observed, from) <= observed.len(),
        forall|j: int|
            from <= j < admitted_at(policy, slots, observed, from) ==> {
                &&& (#[trigger] observed[j]) > policy.low_contention
                &&& observed[j] + slots > policy.capacity
                &&& after_grab(policy, observed[j], slots) == observed[j]
            },
        admitted_at(policy, slots, observed, from) < observed.len() ==> {
            let found = observed[admitted_at(policy, slots, observed, from)];
            &&& found <= policy.low_contention || found + slots <= policy.capacity
            &&& after_grab(policy, found, slots) == found + slots
        },
    decreases observed.len() - from,
{
    if from < observed.len() && !admits(policy, observed[from], slots) {
        lemma_waits_until_usage_lets_in(policy, slots, observed, from + 1);
    }
}

/// A request that is denied stays denied while usage does not drop.
pub proof fn lemma_denied_until_usage_drops(policy: GrabPolicy, active: nat, later: nat, slots: nat)
    requires
        !admits(policy, active, slots),
        later >= active,
    ensures
        !admits(policy, later, slots),
{
}

/// A request over the capacity is denied once usage is above the threshold.
pub proof fn lemma_over_capacity_denied(policy: GrabPolicy, active: nat, slots: nat)
    requires
        active > policy.low_contention,
        active + slots > policy.capacity,
    ensures
        !admits(policy, active, slots),
{
}

} // verus!
