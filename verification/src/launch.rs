//! Supervision of a launch.
//!
//! Launching a swarm is a sequence of things to do, each of which takes
//! time and may fail: start the validators, wait until each of them is
//! healthy, wait until they have found one another, check that the ledger
//! moves.  What to do next is decided here.  The caller does it, one action
//! at a time, and reports what came of it.

use vstd::prelude::*;
use crate::error::SwarmError;
use crate::node::{HealthCheck, PeerId};

verus! {

/// Number of rounds of probes in which the validators must become healthy.
pub const STARTUP_ATTEMPTS: u64 = 30;

/// Milliseconds to pause between two rounds of probes.
pub const STARTUP_PAUSE_MILLIS: u64 = 1000;

/// Milliseconds that a launch allows for the validators to be alive.
pub const LAUNCH_TIMEOUT_MILLIS: u64 = 60000;

/// A validator under supervision.
#[derive(Clone, Debug)]
pub struct Watched {
    pub peer_id: PeerId,
    pub name: String,
}

/// How far supervision has come.
#[derive(Clone, Copy, Debug, PartialEq, Eq, Structural)]
pub enum Stage {
    /// The validators are being started, one after the other.
    Starting,
    /// The time is wanted, to set the deadline from.
    Clock,
    /// A validator is being probed in the current round.
    Probing,
    /// The round is over and not every validator is healthy yet.
    Pausing,
    /// Every validator is healthy; they have yet to find one another.
    Connectivity,
    /// The validators are connected; the ledger has yet to be seen moving.
    Liveness,
    /// The swarm is alive.
    Alive,
    /// Supervision has failed.
    Failed,
}

/// What the caller is to do next.
#[derive(Clone, Copy, Debug, PartialEq, Eq, Structural)]
pub enum LaunchAction {
    /// Start this validator.
    Start(PeerId),
    /// Read the clock.
    ReadClock,
    /// Probe the health of this validator, once.
    Probe(PeerId),
    /// Pause.
    Sleep { millis: u64 },
    /// Wait until the validators are connected, no longer than the deadline.
    WaitForConnectivity { deadline_millis: u64 },
    /// Check that the ledger moves, no longer than the deadline.
    CheckLiveness { deadline_millis: u64 },
    /// Nothing: the swarm is alive.
    Done,
    /// Nothing: supervision has failed.
    GiveUp,
}

/// What came of an action.
#[derive(Clone, Debug)]
pub enum LaunchEvent {
    /// The validator was started.
    Started,
    /// The validator could not be started.
    StartFailed(String),
    /// The time, in milliseconds since some fixed moment.
    Now(u64),
    /// The outcome of the probe.
    Probed(HealthCheck),
    /// The pause is over.
    Woke,
    /// The wait or check succeeded.
    Passed,
    /// The wait or check failed or ran out of time.
    NotPassed(String),
}

/// The first place at or behind `from` that is not done; the length of
/// `done` if all are.
pub open spec fn pending_from(done: Seq<bool>, from: int) -> int
    decreases done.len() - from,
{
    if from < 0 || from >= done.len() {
        done.len() as int
    } else if !done[from] {
        from
    } else {
        pending_from(done, from + 1)
    }
}

/// `pending_from` finds a place that is not done, the first from where it
/// starts, or runs to the end.
pub proof fn lemma_pending_from(done: Seq<bool>, from: int)
    requires
        0 <= from <= done.len(),
    ensures
        from <= pending_from(done, from) <= done.len(),
        pending_from(done, from) < done.len() ==> !done[pending_from(done, from)],
        forall|i: int| from <= i < pending_from(done, from) ==> #[trigger] done[i],
    decreases done.len() - from,
{
    if from < done.len() && done[from] {
        lemma_pending_from(done, from + 1);
    }
}

/// The time by which the swarm must be alive.  It is the latest time there
/// is where the sum is beyond that.
pub open spec fn deadline_after(now_millis: u64, timeout_millis: u64) -> u64 {
    if now_millis + timeout_millis > u64::MAX {
        u64::MAX
    } else {
        (now_millis + timeout_millis) as u64
    }
}

/// Supervision as contracts see it.
pub struct SupervisionView {
    /// The validators, in the order in which they are started and probed.
    pub nodes: Seq<Watched>,
    /// For each validator, whether it has reported that it is healthy.
    pub done: Seq<bool>,
    pub stage: Stage,
    /// The validator that is being started or probed.
    pub cursor: usize,
    /// The number of rounds of probes that are over.
    pub attempt: u64,
    pub timeout_millis: u64,
    pub deadline_millis: u64,
    /// Why supervision has failed, once it has.
    pub failure: Option<SwarmError>,
}

impl SupervisionView {
    /// What holds of supervision at every moment.
    pub open spec fn wf(self) -> bool {
        &&& self.done.len() == self.nodes.len()
        &&& self.nodes.len() <= usize::MAX
        &&& self.stage is Starting || self.stage is Probing ==> self.cursor < self.nodes.len()
        &&& self.stage is Probing || self.stage is Pausing ==> self.attempt < STARTUP_ATTEMPTS
        &&& self.stage is Probing ==> !self.done[self.cursor as int]
        &&& self.stage is Pausing ==> pending_from(self.done, 0) < self.done.len()
        &&& self.stage is Connectivity || self.stage is Liveness || self.stage is Alive
            ==> self.all_healthy()
        &&& self.stage is Failed <==> self.failure is Some
    }

    /// Whether every validator has reported that it is healthy.
    pub open spec fn all_healthy(self) -> bool {
        forall|i: int| 0 <= i < self.done.len() ==> #[trigger] self.done[i]
    }

    /// Whether supervision is over, one way or the other.
    pub open spec fn is_over(self) -> bool {
        self.stage is Alive || self.stage is Failed
    }

    /// Supervision of a launch: the validators are yet to be started.
    pub open spec fn launching(nodes: Seq<Watched>, timeout_millis: u64) -> SupervisionView {
        SupervisionView {
            nodes,
            done: Seq::new(nodes.len(), |i: int| false),
            stage: if nodes.len() == 0 {
                Stage::Clock
            } else {
                Stage::Starting
            },
            cursor: 0,
            attempt: 0,
            timeout_millis,
            deadline_millis: 0,
            failure: None,
        }
    }

    /// Supervision of validators that were started before.
    pub open spec fn waiting(nodes: Seq<Watched>, timeout_millis: u64) -> SupervisionView {
        SupervisionView { stage: Stage::Clock, ..SupervisionView::launching(nodes, timeout_millis) }
    }

    /// Supervision failed for the given reason.
    pub open spec fn failed(self, reason: SwarmError) -> SupervisionView {
        SupervisionView { stage: Stage::Failed, failure: Some(reason), ..self }
    }

    /// The beginning of a round: the first validator that is not healthy yet
    /// is probed.  With none left the startup is over.
    pub open spec fn round(self, attempt: u64) -> SupervisionView {
        let first = pending_from(self.done, 0);
        if first < self.done.len() {
            SupervisionView { stage: Stage::Probing, cursor: first as usize, attempt, ..self }
        } else {
            SupervisionView { stage: Stage::Connectivity, ..self }
        }
    }

    /// The end of a round: a pause, unless every validator is healthy.
    pub open spec fn round_over(self) -> SupervisionView {
        if pending_from(self.done, 0) < self.done.len() {
            SupervisionView { stage: Stage::Pausing, ..self }
        } else {
            SupervisionView { stage: Stage::Connectivity, ..self }
        }
    }

    /// The round goes on: the next validator behind the one just probed that
    /// is not healthy yet is probed.  With none left the round is over.
    pub open spec fn onward(self) -> SupervisionView {
        let next = pending_from(self.done, self.cursor + 1);
        if next < self.done.len() {
            SupervisionView { cursor: next as usize, ..self }
        } else {
            self.round_over()
        }
    }

    /// What the probed validator's answer leads to.  A healthy validator is
    /// not probed again.  One that is not ready is left for the next round.
    /// Either way the round goes on, so that every validator that is not
    /// healthy yet is probed once in every round.  One that is not running,
    /// or of which nothing can be learnt, ends supervision.
    pub open spec fn probed(self, outcome: HealthCheck) -> SupervisionView {
        let name = self.nodes[self.cursor as int].name;
        match outcome {
            HealthCheck::Healthy => (SupervisionView {
                done: self.done.update(self.cursor as int, true),
                ..self
            }).onward(),
            HealthCheck::Failure(_) => self.onward(),
            HealthCheck::NotRunning(reason) => self.failed(
                SwarmError::NodeNotRunning { name, reason },
            ),
            HealthCheck::Unknown(reason) => self.failed(SwarmError::NodeNotRunning { name, reason }),
        }
    }

    /// Supervision after `event`.  An event that supervision was not waiting
    /// for makes it fail; once it is over, nothing changes it any more.
    pub open spec fn next(self, event: LaunchEvent) -> SupervisionView {
        match (self.stage, event) {
            (Stage::Alive, _) => self,
            (Stage::Failed, _) => self,
            (Stage::Starting, LaunchEvent::Started) => if self.cursor + 1 < self.nodes.len() {
                SupervisionView { cursor: (self.cursor + 1) as usize, ..self }
            } else {
                SupervisionView { stage: Stage::Clock, ..self }
            },
            (Stage::Starting, LaunchEvent::StartFailed(reason)) => self.failed(
                SwarmError::StartFailed { name: self.nodes[self.cursor as int].name, reason },
            ),
            (Stage::Clock, LaunchEvent::Now(now_millis)) => (SupervisionView {
                deadline_millis: deadline_after(now_millis, self.timeout_millis),
                ..self
            }).round(0),
            (Stage::Probing, LaunchEvent::Probed(outcome)) => self.probed(outcome),
            (Stage::Pausing, LaunchEvent::Woke) => if self.attempt + 1 < STARTUP_ATTEMPTS {
                self.round((self.attempt + 1) as u64)
            } else {
                self.failed(SwarmError::LaunchTimedOut)
            },
            (Stage::Connectivity, LaunchEvent::Passed) => SupervisionView {
                stage: Stage::Liveness,
                ..self
            },
            (Stage::Connectivity, LaunchEvent::NotPassed(reason)) => self.failed(
                SwarmError::ConnectivityFailed { reason },
            ),
            (Stage::Liveness, LaunchEvent::Passed) => SupervisionView { stage: Stage::Alive, ..self },
            (Stage::Liveness, LaunchEvent::NotPassed(reason)) => self.failed(
                SwarmError::LivenessFailed { reason },
            ),
            _ => self.failed(SwarmError::UnexpectedEvent),
        }
    }

    /// What the caller is to do now.
    pub open spec fn action(self) -> LaunchAction {
        match self.stage {
            Stage::Starting => LaunchAction::Start(self.nodes[self.cursor as int].peer_id),
            Stage::Clock => LaunchAction::ReadClock,
            Stage::Probing => LaunchAction::Probe(self.nodes[self.cursor as int].peer_id),
            Stage::Pausing => LaunchAction::Sleep { millis: STARTUP_PAUSE_MILLIS },
            Stage::Connectivity => LaunchAction::WaitForConnectivity {
                deadline_millis: self.deadline_millis,
            },
            Stage::Liveness => LaunchAction::CheckLiveness { deadline_millis: self.deadline_millis },
            Stage::Alive => LaunchAction::Done,
            Stage::Failed => LaunchAction::GiveUp,
        }
    }

    /// Supervision after a sequence of events, one after the other.
    pub open spec fn run(self, events: Seq<LaunchEvent>) -> SupervisionView
        decreases events.len(),
    {
        if events.len() == 0 {
            self
        } else {
            self.run(events.drop_last()).next(events.last())
        }
    }
}

/// Supervision keeps what holds of it.
pub proof fn lemma_next_keeps_wf(s: SupervisionView, event: LaunchEvent)
    requires
        s.wf(),
    ensures
        s.next(event).wf(),
{
    lemma_pending_from(s.done, 0);
    if s.stage is Probing {
        lemma_pending_from(s.done, s.cursor + 1);
        let marked = s.done.update(s.cursor as int, true);
        lemma_pending_from(marked, 0);
        lemma_pending_from(marked, s.cursor + 1);
        if pending_from(marked, 0) >= marked.len() {
            assert forall|i: int| 0 <= i < marked.len() implies #[trigger] marked[i] by {}
        }
    }
    if pending_from(s.done, 0) >= s.done.len() {
        assert forall|i: int| 0 <= i < s.done.len() implies #[trigger] s.done[i] by {}
    }
}

/// A round covers every validator that is not healthy yet: while one of
/// them stands behind the validator just probed, an answer that is not
/// fatal leads to the next probe and not to the pause, and that probe is of
/// a validator no further on than this one.
pub proof fn lemma_round_covers_the_unconfirmed(s: SupervisionView, outcome: HealthCheck, j: int)
    requires
        s.wf(),
        s.stage is Probing,
        !outcome.is_fatal(),
        s.cursor < j < s.done.len(),
        !s.done[j],
    ensures
        s.next(LaunchEvent::Probed(outcome)).stage is Probing,
        s.next(LaunchEvent::Probed(outcome)).attempt == s.attempt,
        s.cursor < s.next(LaunchEvent::Probed(outcome)).cursor <= j,
{
    lemma_pending_from(s.done, s.cursor + 1);
    let marked = s.done.update(s.cursor as int, true);
    lemma_pending_from(marked, s.cursor + 1);
    assert(!marked[j]);
}

/// Supervision keeps what holds of it, whatever is reported and how often.
pub proof fn lemma_run_keeps_wf(s: SupervisionView, events: Seq<LaunchEvent>)
    requires
        s.wf(),
    ensures
        s.run(events).wf(),
    decreases events.len(),
{
    if events.len() > 0 {
        lemma_run_keeps_wf(s, events.drop_last());
        lemma_next_keeps_wf(s.run(events.drop_last()), events.last());
    }
}

/// Whether `event`, reported to supervision `s`, says that validator `k` is
/// healthy: `k` is the validator being probed, and the probe found it so.
pub open spec fn reports_healthy(s: SupervisionView, event: LaunchEvent, k: int) -> bool {
    s.stage is Probing && s.cursor == k && event == LaunchEvent::Probed(HealthCheck::Healthy)
}

/// Whether `event` is of the kind that supervision `s` is waiting for.
pub open spec fn awaited(s: SupervisionView, event: LaunchEvent) -> bool {
    match s.stage {
        Stage::Starting => event is Started || event is StartFailed,
        Stage::Clock => event is Now,
        Stage::Probing => event is Probed,
        Stage::Pausing => event is Woke,
        Stage::Connectivity => event is Passed || event is NotPassed,
        Stage::Liveness => event is Passed || event is NotPassed,
        Stage::Alive => true,
        Stage::Failed => true,
    }
}

/// Whether `event` tells of a node that is not coming up: one that could
/// not be started, or that a probe found not running or out of reach.
pub open spec fn is_fatal(event: LaunchEvent) -> bool {
    event is StartFailed || (event matches LaunchEvent::Probed(outcome) && outcome.is_fatal())
}

/// Supervision after the first `j` of `events`.
pub open spec fn state_before(s: SupervisionView, events: Seq<LaunchEvent>, j: int) -> SupervisionView {
    s.run(events.take(j))
}

/// Whether validator `k` is never reported healthy in the course of `events`.
pub open spec fn never_healthy(s: SupervisionView, events: Seq<LaunchEvent>, k: int) -> bool {
    forall|j: int|
        0 <= j < events.len() ==> !reports_healthy(#[trigger] state_before(s, events, j), events[j], k)
}

/// Whether every one of `events` is awaited when it comes, and none is fatal.
pub open spec fn uneventful(s: SupervisionView, events: Seq<LaunchEvent>) -> bool {
    forall|j: int|
        0 <= j < events.len() ==> awaited(#[trigger] state_before(s, events, j), events[j])
            && !is_fatal(events[j])
}

/// The number of pauses that end in the course of `events`.
pub open spec fn pauses(events: Seq<LaunchEvent>) -> nat
    decreases events.len(),
{
    if events.len() == 0 {
        0
    } else if events.last() is Woke {
        pauses(events.drop_last()) + 1
    } else {
        pauses(events.drop_last())
    }
}

/// What was true of the course of all events is true of the course of all
/// but the last.
proof fn lemma_shorter_course(s: SupervisionView, events: Seq<LaunchEvent>, k: int)
    requires
        events.len() > 0,
    ensures
        never_healthy(s, events, k) ==> never_healthy(s, events.drop_last(), k),
        uneventful(s, events) ==> uneventful(s, events.drop_last()),
        state_before(s, events, events.len() - 1) == s.run(events.drop_last()),
{
    let shorter = events.drop_last();
    assert(events.take(events.len() - 1) =~= shorter);
    assert forall|j: int| 0 <= j < shorter.len() implies state_before(s, shorter, j) == state_before(
        s,
        events,
        j,
    ) && shorter[j] == events[j] by {
        assert(shorter.take(j) =~= events.take(j));
    }
    if never_healthy(s, events, k) {
        assert forall|j: int| 0 <= j < shorter.len() implies !reports_healthy(
            #[trigger] state_before(s, shorter, j),
            shorter[j],
            k,
        ) by {
            assert(!reports_healthy(state_before(s, events, j), events[j], k));
        }
    }
    if uneventful(s, events) {
        assert forall|j: int| 0 <= j < shorter.len() implies awaited(
            #[trigger] state_before(s, shorter, j),
            shorter[j],
        ) && !is_fatal(shorter[j]) by {
            assert(awaited(state_before(s, events, j), events[j]));
        }
    }
}

/// A validator that never reports healthy keeps the launch from going on:
/// whatever else is reported, supervision does not get past the startup, so
/// the swarm is never waited on for connectivity, never checked for
/// liveness, and never found alive.
pub proof fn lemma_unhealthy_validator_holds_launch(
    s: SupervisionView,
    events: Seq<LaunchEvent>,
    k: int,
)
    requires
        s.wf(),
        0 <= k < s.nodes.len(),
        !s.done[k],
        never_healthy(s, events, k),
    ensures
        s.run(events).done.len() == s.done.len(),
        !s.run(events).done[k],
        !(s.run(events).stage is Connectivity),
        !(s.run(events).stage is Liveness),
        !(s.run(events).stage is Alive),
    decreases events.len(),
{
    lemma_run_keeps_wf(s, events);
    if events.len() > 0 {
        lemma_shorter_course(s, events, k);
        lemma_unhealthy_validator_holds_launch(s, events.drop_last(), k);
        let before = s.run(events.drop_last());
        lemma_run_keeps_wf(s, events.drop_last());
        assert(!reports_healthy(state_before(s, events, events.len() - 1), events.last(), k));
    }
    let after = s.run(events);
    if after.stage is Connectivity || after.stage is Liveness || after.stage is Alive {
        assert(after.done[k]);
    }
}

/// A validator that never reports healthy makes the launch time out: where
/// supervision, started afresh, is told nothing but what it waits for, and
/// of no node that is not coming up, it can only fail for want of time.
pub proof fn lemma_unhealthy_validator_times_out(
    s: SupervisionView,
    events: Seq<LaunchEvent>,
    k: int,
)
    requires
        s.wf(),
        s.failure is None,
        0 <= k < s.nodes.len(),
        !s.done[k],
        never_healthy(s, events, k),
        uneventful(s, events),
    ensures
        s.run(events).stage is Failed ==> s.run(events).failure == Some(SwarmError::LaunchTimedOut),
    decreases events.len(),
{
    if events.len() > 0 {
        lemma_shorter_course(s, events, k);
        lemma_unhealthy_validator_times_out(s, events.drop_last(), k);
        lemma_unhealthy_validator_holds_launch(s, events.drop_last(), k);
        lemma_run_keeps_wf(s, events.drop_last());
        let before = s.run(events.drop_last());
        assert(awaited(state_before(s, events, events.len() - 1), events.last()));
        assert(!is_fatal(events.last()));
    }
}

/// The startup does not outlast its attempts: supervision that was started
/// afresh and is told nothing but what it waits for is past the startup, or
/// has failed, when the pause after the last attempt ends.
pub proof fn lemma_startup_is_bounded(s: SupervisionView, events: Seq<LaunchEvent>)
    requires
        s.wf(),
        s.stage is Starting || s.stage is Clock,
        forall|j: int|
            0 <= j < events.len() ==> awaited(#[trigger] state_before(s, events, j), events[j]),
    ensures
        s.run(events).stage is Starting || s.run(events).stage is Clock ==> pauses(events) == 0,
        s.run(events).stage is Probing || s.run(events).stage is Pausing ==> s.run(events).attempt
            == pauses(events),
        pauses(events) >= STARTUP_ATTEMPTS ==> !(s.run(events).stage is Starting) && !(s.run(
            events,
        ).stage is Clock) && !(s.run(events).stage is Probing) && !(s.run(events).stage is Pausing),
    decreases events.len(),
{
    lemma_run_keeps_wf(s, events);
    if events.len() > 0 {
        let shorter = events.drop_last();
        assert(events.take(events.len() - 1) =~= shorter);
        assert forall|j: int| 0 <= j < shorter.len() implies awaited(
            #[trigger] state_before(s, shorter, j),
            shorter[j],
        ) by {
            assert(shorter.take(j) =~= events.take(j));
            assert(awaited(state_before(s, events, j), events[j]));
        }
        lemma_startup_is_bounded(s, shorter);
        lemma_run_keeps_wf(s, shorter);
        assert(awaited(state_before(s, events, events.len() - 1), events.last()));
    }
}

/// A launch with a validator that never reports healthy ends in a timeout,
/// and in nothing else: supervision that begins with the start of the
/// validators or with the clock, and is told nothing but what it waits for,
/// and of no node that is not coming up, has failed for want of time when
/// the pause after the last attempt is over.  On the way it has asked for
/// nothing that comes after the startup.
pub proof fn lemma_launch_times_out(s: SupervisionView, events: Seq<LaunchEvent>, k: int)
    requires
        s.wf(),
        s.stage is Starting || s.stage is Clock,
        0 <= k < s.nodes.len(),
        !s.done[k],
        never_healthy(s, events, k),
        uneventful(s, events),
        pauses(events) >= STARTUP_ATTEMPTS,
    ensures
        s.run(events).stage is Failed,
        s.run(events).failure == Some(SwarmError::LaunchTimedOut),
        forall|j: int|
            0 <= j <= events.len() ==> !((#[trigger] state_before(s, events, j)).action()
                is WaitForConnectivity) && !(state_before(s, events, j).action() is CheckLiveness)
                && !(state_before(s, events, j).action() is Done),
{
    lemma_unhealthy_validator_holds_launch(s, events, k);
    lemma_unhealthy_validator_times_out(s, events, k);
    lemma_startup_is_bounded(s, events);
    assert forall|j: int| 0 <= j <= events.len() implies !((#[trigger] state_before(
        s,
        events,
        j,
    )).action() is WaitForConnectivity) && !(state_before(s, events, j).action() is CheckLiveness)
        && !(state_before(s, events, j).action() is Done) by {
        let first = events.take(j);
        assert forall|i: int| 0 <= i < first.len() implies !reports_healthy(
            #[trigger] state_before(s, first, i),
            first[i],
            k,
        ) by {
            assert(first.take(i) =~= events.take(i));
            assert(!reports_healthy(state_before(s, events, i), events[i], k));
        }
        lemma_unhealthy_validator_holds_launch(s, first, k);
    }
}

/// Supervision of one launch.
#[derive(Debug)]
pub struct Supervision {
    nodes: Vec<Watched>,
    done: Vec<bool>,
    stage: Stage,
    cursor: usize,
    attempt: u64,
    timeout_millis: u64,
    deadline_millis: u64,
    failure: Option<SwarmError>,
}

impl Supervision {
    /// Supervision as contracts see it.
    pub closed spec fn view(&self) -> SupervisionView {
        SupervisionView {
            nodes: self.nodes@,
            done: self.done@,
            stage: self.stage,
            cursor: self.cursor,
            attempt: self.attempt,
            timeout_millis: self.timeout_millis,
            deadline_millis: self.deadline_millis,
            failure: self.failure,
        }
    }

    /// What holds of supervision at every moment.
    pub open spec fn wf(&self) -> bool {
        self@.wf()
    }

    /// Supervision of a launch of `nodes`: they are started first, in their
    /// order, and then must be alive within `timeout_millis`.
    pub fn launching(nodes: Vec<Watched>, timeout_millis: u64) -> (s: Supervision)
        ensures
            s.wf(),
            s@ == SupervisionView::launching(nodes@, timeout_millis),
    {
        let mut done: Vec<bool> = Vec::new();
        let mut i: usize = 0;
        while i < nodes.len()
            invariant
                i <= nodes.len(),
                done@ == Seq::new(i as nat, |k: int| false),
            decreases nodes.len() - i,
        {
            done.push(false);
            assert(done@ =~= Seq::new((i + 1) as nat, |k: int| false));
            i = i + 1;
        }
        let stage = if nodes.len() == 0 {
            Stage::Clock
        } else {
            Stage::Starting
        };
        Supervision {
            nodes,
            done,
            stage,
            cursor: 0,
            attempt: 0,
            timeout_millis,
            deadline_millis: 0,
            failure: None,
        }
    }

    /// Supervision of `nodes` that were started before: they must be alive
    /// within `timeout_millis`.
    pub fn waiting(nodes: Vec<Watched>, timeout_millis: u64) -> (s: Supervision)
        ensures
            s.wf(),
            s@ == SupervisionView::waiting(nodes@, timeout_millis),
    {
        let mut s = Supervision::launching(nodes, timeout_millis);
        s.stage = Stage::Clock;
        s
    }

    /// The first validator at or behind `from` that is not healthy yet.
    fn first_pending(&self, from: usize) -> (place: usize)
        requires
            from <= self.done@.len(),
        ensures
            place == pending_from(self.done@, from as int),
            from <= place <= self.done@.len(),
    {
        let mut i: usize = from;
        while i < self.done.len() && self.done[i]
            invariant
                from <= i <= self.done@.len(),
                pending_from(self.done@, i as int) == pending_from(self.done@, from as int),
            decreases self.done@.len() - i,
        {
            i = i + 1;
        }
        i
    }

    fn fail(&mut self, reason: SwarmError)
        ensures
            final(self)@ == old(self)@.failed(reason),
    {
        self.stage = Stage::Failed;
        self.failure = Some(reason);
    }

    fn round(&mut self, attempt: u64)
        ensures
            final(self)@ == old(self)@.round(attempt),
    {
        let first = self.first_pending(0);
        if first < self.done.len() {
            self.stage = Stage::Probing;
            self.cursor = first;
            self.attempt = attempt;
        } else {
            self.stage = Stage::Connectivity;
        }
    }

    fn round_over(&mut self)
        ensures
            final(self)@ == old(self)@.round_over(),
    {
        if self.first_pending(0) < self.done.len() {
            self.stage = Stage::Pausing;
        } else {
            self.stage = Stage::Connectivity;
        }
    }

    fn onward(&mut self)
        requires
            old(self).wf(),
            old(self)@.stage is Probing,
        ensures
            final(self)@ == old(self)@.onward(),
    {
        let count: usize = self.done.len();
        let next = self.first_pending(self.cursor + 1);
        if next < count {
            self.cursor = next;
        } else {
            self.round_over();
        }
    }

    fn probed(&mut self, outcome: HealthCheck)
        requires
            old(self).wf(),
            old(self)@.stage is Probing,
        ensures
            final(self)@ == old(self)@.probed(outcome),
    {
        match outcome {
            HealthCheck::Healthy => {
                let count: usize = self.done.len();
                self.done.set(self.cursor, true);
                let next = self.first_pending(self.cursor + 1);
                if next < count {
                    self.cursor = next;
                } else {
                    self.round_over();
                }
            },
            HealthCheck::Failure(_) => {
                self.onward();
            },
            HealthCheck::NotRunning(reason) => {
                let name = self.nodes[self.cursor].name.clone();
                self.fail(SwarmError::NodeNotRunning { name, reason });
            },
            HealthCheck::Unknown(reason) => {
                let name = self.nodes[self.cursor].name.clone();
                self.fail(SwarmError::NodeNotRunning { name, reason });
            },
        }
    }

    /// What the caller is to do now.
    pub fn action(&self) -> (action: LaunchAction)
        requires
            self.wf(),
        ensures
            action == self@.action(),
    {
        match self.stage {
            Stage::Starting => LaunchAction::Start(self.nodes[self.cursor].peer_id),
            Stage::Clock => LaunchAction::ReadClock,
            Stage::Probing => LaunchAction::Probe(self.nodes[self.cursor].peer_id),
            Stage::Pausing => LaunchAction::Sleep { millis: STARTUP_PAUSE_MILLIS },
            Stage::Connectivity => LaunchAction::WaitForConnectivity {
                deadline_millis: self.deadline_millis,
            },
            Stage::Liveness => LaunchAction::CheckLiveness { deadline_millis: self.deadline_millis },
            Stage::Alive => LaunchAction::Done,
            Stage::Failed => LaunchAction::GiveUp,
        }
    }

    /// Takes in what came of the last action and says what to do next.
    pub fn step(&mut self, event: LaunchEvent) -> (action: LaunchAction)
        requires
            old(self).wf(),
        ensures
            final(self).wf(),
            final(self)@ == old(self)@.next(event),
            action == final(self)@.action(),
    {
        proof {
            lemma_next_keeps_wf(self@, event);
        }
        match self.stage {
            Stage::Alive => {},
            Stage::Failed => {},
            Stage::Starting => match event {
                LaunchEvent::Started => {
                    let count: usize = self.nodes.len();
                    if self.cursor + 1 < count {
                        self.cursor = self.cursor + 1;
                    } else {
                        self.stage = Stage::Clock;
                    }
                },
                LaunchEvent::StartFailed(reason) => {
                    let name = self.nodes[self.cursor].name.clone();
                    self.fail(SwarmError::StartFailed { name, reason });
                },
                _ => {
                    self.fail(SwarmError::UnexpectedEvent);
                },
            },
            Stage::Clock => match event {
                LaunchEvent::Now(now_millis) => {
                    self.deadline_millis = match now_millis.checked_add(self.timeout_millis) {
                        Some(deadline) => deadline,
                        None => u64::MAX,
                    };
                    self.round(0);
                },
                _ => {
                    self.fail(SwarmError::UnexpectedEvent);
                },
            },
            Stage::Probing => match event {
                LaunchEvent::Probed(outcome) => {
                    self.probed(outcome);
                },
                _ => {
                    self.fail(SwarmError::UnexpectedEvent);
                },
            },
            Stage::Pausing => match event {
                LaunchEvent::Woke => {
                    if self.attempt + 1 < STARTUP_ATTEMPTS {
                        self.round(self.attempt + 1);
                    } else {
                        self.fail(SwarmError::LaunchTimedOut);
                    }
                },
                _ => {
                    self.fail(SwarmError::UnexpectedEvent);
                },
            },
            Stage::Connectivity => match event {
                LaunchEvent::Passed => {
                    self.stage = Stage::Liveness;
                },
                LaunchEvent::NotPassed(reason) => {
                    self.fail(SwarmError::ConnectivityFailed { reason });
                },
                _ => {
                    self.fail(SwarmError::UnexpectedEvent);
                },
            },
            Stage::Liveness => match event {
                LaunchEvent::Passed => {
                    self.stage = Stage::Alive;
                },
                LaunchEvent::NotPassed(reason) => {
                    self.fail(SwarmError::LivenessFailed { reason });
                },
                _ => {
                    self.fail(SwarmError::UnexpectedEvent);
                },
            },
        }
        self.action()
    }

    /// How far supervision has come.
    pub fn stage(&self) -> (stage: Stage)
        ensures
            stage == self@.stage,
    {
        self.stage
    }

    /// The number of rounds of probes that are over.
    pub fn attempt(&self) -> (attempt: u64)
        ensures
            attempt == self@.attempt,
    {
        self.attempt
    }

    /// How supervision ended: well, or with the reason for which it failed.
    /// Nothing while it is not over.
    pub fn outcome(self) -> (outcome: Option<Result<(), SwarmError>>)
        requires
            self.wf(),
        ensures
            outcome is Some <==> self@.is_over(),
            self@.stage is Alive ==> outcome == Some(Ok::<(), SwarmError>(())),
            self@.stage is Failed ==> outcome == Some(Err::<(), SwarmError>(self@.failure->0)),
    {
        match self.stage {
            Stage::Alive => Some(Ok(())),
            Stage::Failed => match self.failure {
                Some(reason) => Some(Err(reason)),
                None => None,
            },
            _ => None,
        }
    }
}

} // verus!
