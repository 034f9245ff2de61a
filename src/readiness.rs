//! Readiness watcher: follows lifecycle notifications of one resource until
//! its phase reaches a target, the deadline passes, or the watch fails.

use vstd::prelude::*;

verus! {

/// Lifecycle phase of a workload.
#[derive(Clone, Copy, Debug, PartialEq, Eq, Structural)]
pub enum PodPhase {
    Pending,
    Running,
    Succeeded,
    Failed,
    Unknown,
}

/// What the watch delivers, each stamped with the time it was seen.
#[derive(Clone, Copy, Debug, PartialEq, Eq, Structural)]
pub enum WatchEvent {
    /// The resource changed and is now in `phase`.
    Notified { at: u64, phase: PodPhase },
    /// The watch itself failed.
    Failed { at: u64 },
    /// The clock advanced with no notification.
    Tick { now: u64 },
}

/// State of a watch; every state but `Watching` is terminal.
#[derive(Clone, Copy, Debug, PartialEq, Eq, Structural)]
pub enum WatchStatus {
    Watching,
    Observed { at: u64 },
    TimedOut { at: u64 },
    WatchError { at: u64 },
}

pub open spec fn event_time(e: WatchEvent) -> u64 {
    match e {
        WatchEvent::Notified { at, .. } => at,
        WatchEvent::Failed { at } => at,
        WatchEvent::Tick { now } => now,
    }
}

/// One transition. Anything seen at or after the deadline times the watch
/// out, at the deadline; before it, a notification in the target phase is
/// observed and a failure ends the watch.
pub open spec fn watch_step(target: PodPhase, deadline: u64, s: WatchStatus, e: WatchEvent) -> WatchStatus {
    match s {
        WatchStatus::Watching => if event_time(e) >= deadline {
            WatchStatus::TimedOut { at: deadline }
        } else {
            match e {
                WatchEvent::Notified { at, phase } => if phase == target {
                    WatchStatus::Observed { at }
                } else {
                    WatchStatus::Watching
                },
                WatchEvent::Failed { at } => WatchStatus::WatchError { at },
                WatchEvent::Tick { .. } => WatchStatus::Watching,
            }
        },
        _ => s,
    }
}

/// State after the events, in order, from the start of the watch.
pub open spec fn watch_run(target: PodPhase, deadline: u64, events: Seq<WatchEvent>) -> WatchStatus
    decreases events.len(),
{
    if events.len() == 0 {
        WatchStatus::Watching
    } else {
        watch_step(target, deadline, watch_run(target, deadline, events.drop_last()), events.last())
    }
}

/// A notification that satisfies the predicate.
pub open spec fn reaches(target: PodPhase, e: WatchEvent) -> bool {
    e matches WatchEvent::Notified { phase, .. } && phase == target
}

/// One watch: one resource, one target phase, one deadline.
pub struct ReadinessWatcher {
    pub target: PodPhase,
    pub deadline: u64,
    pub status: WatchStatus,
}

impl ReadinessWatcher {
    /// A watch that has seen nothing yet.
    pub fn new(target: PodPhase, deadline: u64) -> (r: Self)
        ensures
            r.target == target,
            r.deadline == deadline,
            r.status == WatchStatus::Watching,
    {
        ReadinessWatcher { target, deadline, status: WatchStatus::Watching }
    }

    /// Takes one event into account.
    pub fn observe(&mut self, e: WatchEvent)
        ensures
            final(self).target == old(self).target,
            final(self).deadline == old(self).deadline,
            final(self).status == watch_step(old(self).target, old(self).deadline, old(self).status, e),
    {
        if let WatchStatus::Watching = self.status {
            let t = match e {
                WatchEvent::Notified { at, .. } => at,
                WatchEvent::Failed { at } => at,
                WatchEvent::Tick { now } => now,
            };
            if t >= self.deadline {
                self.status = WatchStatus::TimedOut { at: self.deadline };
            } else {
                match e {
                    WatchEvent::Notified { at, phase } => {
                        if phase == self.target {
                            self.status = WatchStatus::Observed { at };
                        }
                    },
                    WatchEvent::Failed { at } => {
                        self.status = WatchStatus::WatchError { at };
                    },
                    WatchEvent::Tick { .. } => {},
                }
            }
        }
    }

    /// Whether the watch has ended.
    pub fn is_done(&self) -> (r: bool)
        ensures
            r == !(self.status is Watching),
    {
        !matches!(self.status, WatchStatus::Watching)
    }
}

/// Runs a whole watch over `events`, stopping at the first terminal state.
pub fn watch_until_ready(target: PodPhase, deadline: u64, events: &Vec<WatchEvent>) -> (r: WatchStatus)
    ensures
        r == watch_run(target, deadline, events@),
{
    let mut w = ReadinessWatcher::new(target, deadline);
    let mut i: usize = 0;
    while i < events.len() && !w.is_done()
        invariant
            0 <= i <= events@.len(),
            w.target == target,
            w.deadline == deadline,
            w.status == watch_run(target, deadline, events@.subrange(0, i as int)),
        decreases events@.len() - i,
    {
        w.observe(events[i]);
        assert(events@.subrange(0, i + 1).drop_last() == events@.subrange(0, i as int));
        i = i + 1;
    }
    proof {
        lemma_terminal_stays(target, deadline, events@, i as int);
        assert(events@.subrange(0, events@.len() as int) == events@);
    }
    w.status
}

/// Once terminal, a watch stays in that state whatever else arrives.
proof fn lemma_terminal_stays(target: PodPhase, deadline: u64, events: Seq<WatchEvent>, n: int)
    requires
        0 <= n <= events.len(),
        n < events.len() ==> !(watch_run(target, deadline, events.subrange(0, n)) is Watching),
    ensures
        watch_run(target, deadline, events.subrange(0, events.len() as int)) == watch_run(
            target,
            deadline,
            events.subrange(0, n),
        ),
    decreases events.len() - n,
{
    if n < events.len() {
        let m = events.len() as int;
        let prefix = events.subrange(0, m - 1);
        assert(events.subrange(0, m).drop_last() == prefix);
        assert(prefix.subrange(0, n) == events.subrange(0, n));
        lemma_terminal_stays(target, deadline, prefix, n);
        assert(prefix.subrange(0, prefix.len() as int) == prefix);
    }
}

/// Events before `n` that are all seen before the deadline and neither reach
/// the target nor fail leave the watch going.
proof fn lemma_quiet_prefix(target: PodPhase, deadline: u64, events: Seq<WatchEvent>, n: int)
    requires
        0 <= n <= events.len(),
        forall|i: int|
            0 <= i < n ==> event_time(#[trigger] events[i]) < deadline && !reaches(target, events[i])
                && !(events[i] is Failed),
    ensures
        watch_run(target, deadline, events.subrange(0, n)) == WatchStatus::Watching,
    decreases n,
{
    if n > 0 {
        assert(events.subrange(0, n).drop_last() == events.subrange(0, n - 1));
        lemma_quiet_prefix(target, deadline, events, n - 1);
    }
}

/// A stream whose times never go back and that first reaches the target at
/// time `t` before the deadline (with no failure before it) is observed at
/// `t`: not before the qualifying notification, and before the deadline.
pub proof fn lemma_observed_before_deadline(
    target: PodPhase,
    deadline: u64,
    events: Seq<WatchEvent>,
    k: int,
)
    requires
        0 <= k < events.len(),
        forall|i: int, j: int|
            0 <= i <= j < events.len() ==> event_time(#[trigger] events[i]) <= event_time(
                #[trigger] events[j],
            ),
        reaches(target, events[k]),
        event_time(events[k]) < deadline,
        forall|i: int|
            0 <= i < k ==> !reaches(target, #[trigger] events[i]) && !(events[i] is Failed),
    ensures
        watch_run(target, deadline, events) == (WatchStatus::Observed { at: event_time(events[k]) }),
        event_time(events[k]) < deadline,
{
    assert forall|i: int| 0 <= i < k implies event_time(#[trigger] events[i]) < deadline
        && !reaches(target, events[i]) && !(events[i] is Failed) by {
        assert(event_time(events[i]) <= event_time(events[k]));
    }
    lemma_quiet_prefix(target, deadline, events, k);
    assert(events.subrange(0, k + 1).drop_last() == events.subrange(0, k));
    lemma_terminal_stays(target, deadline, events, k + 1);
    assert(events.subrange(0, events.len() as int) == events);
}

/// A stream that never reaches the target and never fails, and whose clock
/// gets to the deadline, times out exactly at the deadline.
pub proof fn lemma_timed_out_at_deadline(target: PodPhase, deadline: u64, events: Seq<WatchEvent>)
    requires
        forall|i: int|
            0 <= i < events.len() ==> !reaches(target, #[trigger] events[i]) && !(
            events[i] is Failed),
        exists|i: int| 0 <= i < events.len() && event_time(#[trigger] events[i]) >= deadline,
    ensures
        watch_run(target, deadline, events) == (WatchStatus::TimedOut { at: deadline }),
    decreases events.len(),
{
    let n = events.len() as int;
    let prefix = events.drop_last();
    lemma_never_reaching(target, deadline, prefix);
    if event_time(events[n - 1]) < deadline {
        let i = choose|i: int| 0 <= i < events.len() && event_time(#[trigger] events[i]) >= deadline;
        assert(prefix[i] == events[i]);
        lemma_timed_out_at_deadline(target, deadline, prefix);
    }
}

/// Without reaching the target or failing, a watch is either still going or
/// timed out at the deadline.
proof fn lemma_never_reaching(target: PodPhase, deadline: u64, events: Seq<WatchEvent>)
    requires
        forall|i: int|
            0 <= i < events.len() ==> !reaches(target, #[trigger] events[i]) && !(
            events[i] is Failed),
    ensures
        watch_run(target, deadline, events) == WatchStatus::Watching || watch_run(
            target,
            deadline,
            events,
        ) == (WatchStatus::TimedOut { at: deadline }),
    decreases events.len(),
{
    if events.len() > 0 {
        let prefix = events.drop_last();
        assert forall|i: int| 0 <= i < prefix.len() implies !reaches(target, #[trigger] prefix[i])
            && !(prefix[i] is Failed) by {
            assert(prefix[i] == events[i]);
        }
        lemma_never_reaching(target, deadline, prefix);
    }
}

} // verus!
