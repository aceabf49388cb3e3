//! The probe loop of a service: when to probe, what to note in the log and
//! when to stop.
use vstd::prelude::*;

use crate::duration::Duration;

verus! {

/// Upper bound of the random delay before the first probe, in milliseconds. It
/// keeps services with the same interval from being probed in one burst.
pub const MAX_STARTUP_JITTER_MILLIS: u64 = 5000;

/// The number of milliseconds from which the delay before the first probe is
/// drawn: those of the interval, at least one and at most the upper bound.
pub open spec fn jitter_choices(interval: Duration) -> int {
    let millis = interval.nanos as int / 1_000_000;
    if millis < 1 {
        1
    } else if millis > MAX_STARTUP_JITTER_MILLIS {
        MAX_STARTUP_JITTER_MILLIS as int
    } else {
        millis
    }
}

/// A random number below `bound`.
///
/// Trusted: `rand::Rng::random_range` on the range from zero to `bound`, with
/// the generator that `rand::rng` hands out. The contract claims that the
/// number lies in that range. Which number it is depends on chance and is not
/// stated.
#[verifier::external_body]
fn random_below(bound: u64) -> (n: u64)
    requires
        bound > 0,
    ensures
        n < bound,
{
    rand::Rng::random_range(&mut rand::rng(), 0..bound)
}

/// The bound below which the delay before the first probe is drawn.
pub fn jitter_bound(interval: Duration) -> (bound: u64)
    ensures
        bound == jitter_choices(interval),
        bound > 0,
        interval.nanos < 2_000_000 ==> bound == 1,
        interval.nanos >= 5_000_000_000 ==> bound == 5000,
        2_000_000 <= interval.nanos < 5_000_000_000 ==> bound * 1_000_000 <= interval.nanos < (bound
            + 1) * 1_000_000,
{
    let longest = Duration::from_millis(MAX_STARTUP_JITTER_MILLIS);
    let millis = interval.min(longest).as_millis();
    if millis < 1 {
        1
    } else {
        millis as u64
    }
}

/// Draws the delay before the first probe.
pub fn startup_jitter(interval: Duration) -> (d: Duration)
    ensures
        exists|k: int| 0 <= k < jitter_choices(interval) && d.nanos == #[trigger] (k * 1_000_000),
        d.nanos as int % 1_000_000 == 0,
        d.nanos < 5_000_000_000,
        interval.nanos < 2_000_000 ==> d.nanos == 0,
        interval.nanos >= 1_000_000 ==> d.nanos < interval.nanos,
{
    let k = random_below(jitter_bound(interval));
    assert(k * 1_000_000 == (k as int) * 1_000_000);
    Duration::from_millis(k)
}

/// Where a probe loop stands, and so what it waits for.
#[derive(Debug, Clone, Copy, PartialEq, Eq, Structural)]
pub enum Stage {
    /// Before the first tick; waits for the startup delay or for shutdown.
    Starting,
    /// Between probes; waits for the next tick or for shutdown.
    Waiting,
    /// A probe is under way; waits for its outcome.
    Probing,
    /// Over.
    Stopped,
}

/// A probe loop: where it stands, and how the last probe went.
#[derive(Debug, Clone, Copy, PartialEq, Eq, Structural)]
pub struct ProberState {
    pub stage: Stage,
    pub was_healthy: Option<bool>,
}

/// What a probe loop waits for.
#[derive(Debug, Clone, Copy, PartialEq, Eq, Structural)]
pub enum ProberEvent {
    /// The startup delay is over, or the interval has passed.
    Timer,
    /// The process is to shut down.
    Shutdown,
    /// A probe has its outcome.
    Probed { success: bool },
}

/// What the outcome of a probe is worth in the log.
#[derive(Debug, Clone, Copy, PartialEq, Eq, Structural)]
pub enum Notice {
    Quiet,
    Recovered,
    Failed,
}

/// What a probe loop does next.
#[derive(Debug, Clone, Copy, PartialEq, Eq, Structural)]
pub enum ProberAction {
    /// Wait for the next tick of the interval.
    AwaitTick,
    /// Probe the service.
    Probe,
    /// Record the outcome, log the notice, and wait for the next tick.
    Record(Notice),
    /// End the loop.
    Stop,
}

/// The state of a loop that has just begun.
pub open spec fn initial_state() -> ProberState {
    ProberState { stage: Stage::Starting, was_healthy: None }
}

/// Whether an event can happen where a loop stands. Shutdown is not looked for
/// while a probe is under way: it is seen once the outcome is recorded.
pub open spec fn can_happen(state: ProberState, event: ProberEvent) -> bool {
    match state.stage {
        Stage::Starting => event is Timer || event is Shutdown,
        Stage::Waiting => event is Timer || event is Shutdown,
        Stage::Probing => event is Probed,
        Stage::Stopped => false,
    }
}

/// What the outcome of a probe is worth in the log, given the one before it.
pub open spec fn notice_of(was_healthy: Option<bool>, success: bool) -> Notice {
    if !success {
        Notice::Failed
    } else if was_healthy == Some(false) {
        Notice::Recovered
    } else {
        Notice::Quiet
    }
}

/// The state after an event, and what is done.
pub open spec fn step(state: ProberState, event: ProberEvent) -> (ProberState, ProberAction) {
    match event {
        ProberEvent::Shutdown => (
            ProberState { stage: Stage::Stopped, ..state },
            ProberAction::Stop,
        ),
        ProberEvent::Timer => if state.stage == Stage::Starting {
            (ProberState { stage: Stage::Waiting, ..state }, ProberAction::AwaitTick)
        } else {
            (ProberState { stage: Stage::Probing, ..state }, ProberAction::Probe)
        },
        ProberEvent::Probed { success } => (
            ProberState { stage: Stage::Waiting, was_healthy: Some(success) },
            ProberAction::Record(notice_of(state.was_healthy, success)),
        ),
    }
}

/// Begins a loop: its state, and the delay before the first tick.
pub fn start_prober(interval: Duration) -> (r: (ProberState, Duration))
    ensures
        r.0 == initial_state(),
        exists|k: int|
            0 <= k < jitter_choices(interval) && r.1.nanos == #[trigger] (k * 1_000_000),
        r.0.stage == Stage::Starting,
        r.0.was_healthy is None,
        r.1.nanos as int % 1_000_000 == 0,
        r.1.nanos < 5_000_000_000,
        interval.nanos < 2_000_000 ==> r.1.nanos == 0,
        interval.nanos >= 1_000_000 ==> r.1.nanos < interval.nanos,
{
    (ProberState { stage: Stage::Starting, was_healthy: None }, startup_jitter(interval))
}

/// Takes a loop one event further.
pub fn run_prober(state: ProberState, event: ProberEvent) -> (r: (ProberState, ProberAction))
    requires
        can_happen(state, event),
    ensures
        r == step(state, event),
{
    match event {
        ProberEvent::Shutdown => (
            ProberState { stage: Stage::Stopped, was_healthy: state.was_healthy },
            ProberAction::Stop,
        ),
        ProberEvent::Timer => match state.stage {
            Stage::Starting => (
                ProberState { stage: Stage::Waiting, was_healthy: state.was_healthy },
                ProberAction::AwaitTick,
            ),
            _ => (
                ProberState { stage: Stage::Probing, was_healthy: state.was_healthy },
                ProberAction::Probe,
            ),
        },
        ProberEvent::Probed { success } => {
            let notice = if !success {
                Notice::Failed
            } else {
                match state.was_healthy {
                    Some(false) => Notice::Recovered,
                    _ => Notice::Quiet,
                }
            };
            (
                ProberState { stage: Stage::Waiting, was_healthy: Some(success) },
                ProberAction::Record(notice),
            )
        },
    }
}

// ---------------------------------------------------------------------------
// What holds of every loop.
// ---------------------------------------------------------------------------

/// The delay before the first probe is shorter than the interval, where that
/// has a millisecond, and shorter than the upper bound in any case.
pub proof fn law_jitter_bounded(interval: Duration, k: int)
    requires
        0 <= k < jitter_choices(interval),
    ensures
        k * 1_000_000 < MAX_STARTUP_JITTER_MILLIS * 1_000_000,
        interval.nanos >= 1_000_000 ==> k * 1_000_000 < interval.nanos,
{
}

/// Only shutdown ends a loop: no outcome of a probe does.
pub proof fn law_only_shutdown_stops(state: ProberState, event: ProberEvent)
    requires
        can_happen(state, event),
    ensures
        step(state, event).0.stage == Stage::Stopped <==> event is Shutdown,
        step(state, event).1 == ProberAction::Stop <==> event is Shutdown,
{
}

/// Every outcome is recorded, a failure no less than a success, and the loop
/// goes on to the next tick and the next probe.
pub proof fn law_every_outcome_recorded(state: ProberState, success: bool)
    requires
        can_happen(state, ProberEvent::Probed { success }),
    ensures
        ({
            let (next, action) = step(state, ProberEvent::Probed { success });
            &&& action is Record
            &&& next.stage == Stage::Waiting
            &&& can_happen(next, ProberEvent::Timer)
            &&& step(next, ProberEvent::Timer).1 == ProberAction::Probe
        }),
{
}

/// The state of a loop after probes with these outcomes, one for each tick.
pub open spec fn after_probes(outcomes: Seq<bool>) -> ProberState
    decreases outcomes.len(),
{
    if outcomes.len() == 0 {
        step(initial_state(), ProberEvent::Timer).0
    } else {
        let probing = step(after_probes(outcomes.drop_last()), ProberEvent::Timer).0;
        step(probing, ProberEvent::Probed { success: outcomes.last() }).0
    }
}

/// What the loop does with the outcome at position `i`.
pub open spec fn reaction(outcomes: Seq<bool>, i: int) -> ProberAction {
    let probing = step(after_probes(outcomes.take(i)), ProberEvent::Timer).0;
    step(probing, ProberEvent::Probed { success: outcomes[i] }).1
}

proof fn lemma_remembers_last(outcomes: Seq<bool>)
    ensures
        after_probes(outcomes).stage == Stage::Waiting,
        after_probes(outcomes).was_healthy == if outcomes.len() == 0 {
            None
        } else {
            Some(outcomes.last())
        },
    decreases outcomes.len(),
{
    if outcomes.len() > 0 {
        lemma_remembers_last(outcomes.drop_last());
    }
}

/// A recovery is noted once: at the first success after a failure, and at no
/// other probe. A failure is noted at every failing probe.
pub proof fn law_recovery_noted_once(outcomes: Seq<bool>, i: int)
    requires
        0 <= i < outcomes.len(),
    ensures
        reaction(outcomes, i) == ProberAction::Record(Notice::Recovered) <==> outcomes[i] && i > 0
            && !outcomes[i - 1],
        reaction(outcomes, i) == ProberAction::Record(Notice::Failed) <==> !outcomes[i],
{
    lemma_remembers_last(outcomes.take(i));
    if i > 0 {
        assert(outcomes.take(i).last() == outcomes[i - 1]);
    }
}

/// The delay before the first probe is drawn from as many milliseconds as the
/// interval has, from one at least, and from five thousand at most.
pub proof fn law_jitter_choices(interval: Duration)
    ensures
        interval.nanos < 2_000_000 ==> jitter_choices(interval) == 1,
        interval.nanos >= 5_000_000_000 ==> jitter_choices(interval) == 5000,
        2_000_000 <= interval.nanos < 5_000_000_000 ==> jitter_choices(interval) * 1_000_000
            <= interval.nanos < (jitter_choices(interval) + 1) * 1_000_000,
{
}

/// A loop begins with the startup delay and knows of no probe.
pub proof fn law_begins_starting()
    ensures
        initial_state().stage == Stage::Starting,
        initial_state().was_healthy is None,
        can_happen(initial_state(), ProberEvent::Timer),
        can_happen(initial_state(), ProberEvent::Shutdown),
{
}

/// What each event does to a loop: the startup delay leads to the first tick, a
/// tick to a probe, a probe to its record and the next tick, and shutdown to
/// the end. Only a probe changes what is known of the last probe.
pub proof fn law_loop_events(was_healthy: Option<bool>, success: bool)
    ensures
        ({
            let starting = ProberState { stage: Stage::Starting, was_healthy };
            let waiting = ProberState { stage: Stage::Waiting, was_healthy };
            let probing = ProberState { stage: Stage::Probing, was_healthy };
            let stopped = ProberState { stage: Stage::Stopped, was_healthy };
            let probed = ProberState { stage: Stage::Waiting, was_healthy: Some(success) };
            let notice = step(probing, ProberEvent::Probed { success }).1;
            &&& step(starting, ProberEvent::Timer) == (waiting, ProberAction::AwaitTick)
            &&& step(starting, ProberEvent::Shutdown) == (stopped, ProberAction::Stop)
            &&& step(waiting, ProberEvent::Timer) == (probing, ProberAction::Probe)
            &&& step(waiting, ProberEvent::Shutdown) == (stopped, ProberAction::Stop)
            &&& step(probing, ProberEvent::Probed { success }).0 == probed
            &&& !success ==> notice == ProberAction::Record(Notice::Failed)
            &&& success && was_healthy == Some(false) ==> notice == ProberAction::Record(
                Notice::Recovered,
            )
            &&& success && was_healthy != Some(false) ==> notice == ProberAction::Record(
                Notice::Quiet,
            )
        }),
{
}

/// Which events can happen where: ticks and shutdown between probes, an outcome
/// during one, and nothing after the end.
pub proof fn law_what_can_happen(state: ProberState, event: ProberEvent)
    ensures
        state.stage == Stage::Starting || state.stage == Stage::Waiting ==> (can_happen(state, event)
            <==> event == ProberEvent::Timer || event == ProberEvent::Shutdown),
        state.stage == Stage::Probing ==> (can_happen(state, event) <==> (event
            == ProberEvent::Probed { success: true } || event == ProberEvent::Probed {
            success: false,
        })),
        state.stage == Stage::Stopped ==> !can_happen(state, event),
{
}

} // verus!
