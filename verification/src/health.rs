//! The health check & launcher, as a state machine: probe the endpoint
//! with a short timeout; if it does not answer, launch the server in the
//! background, wait a grace period, and probe once more with a longer
//! timeout. The driver performs each returned action and feeds the result
//! back as the next event.

use vstd::prelude::*;

verus! {

/// Short first-probe timeout, in seconds.
pub const QUICK_PROBE_SECS: u64 = 1;

/// Grace period between launching and re-probing, in seconds.
pub const GRACE_PERIOD_SECS: u64 = 5;

/// Longer timeout for the probe after launching, in seconds.
pub const RETRY_PROBE_SECS: u64 = 5;

#[derive(Clone, Copy, Debug, PartialEq, Eq, Structural)]
pub enum HealthStatus {
    /// The endpoint answered the first probe: nothing was launched.
    AlreadyRunning,
    /// The endpoint answered after the launch and the grace period.
    Started,
    /// The launch command could not be spawned.
    SpawnFailed,
    /// The endpoint still did not answer after the launch.
    NotResponding,
}

#[derive(Clone, Copy, Debug, PartialEq, Eq, Structural)]
pub enum HealthState {
    /// Waiting for the outcome of the first, short probe.
    FirstProbe,
    /// Waiting for the outcome of the background launch.
    Launching,
    /// Waiting for the grace period to elapse.
    Settling,
    /// Waiting for the outcome of the second, longer probe.
    SecondProbe,
    /// Terminal.
    Done(HealthStatus),
}

#[derive(Clone, Copy, Debug, PartialEq, Eq, Structural)]
pub enum HealthEvent {
    /// A probe finished: did the endpoint answer with success?
    Probe(bool),
    /// The background launch finished: was the process spawned?
    Spawned(bool),
    /// The grace period elapsed.
    Slept,
}

#[derive(Clone, Copy, Debug, PartialEq, Eq, Structural)]
pub enum HealthAction {
    /// Probe the endpoint with `QUICK_PROBE_SECS`.
    ProbeQuick,
    /// Spawn the launch command in the background, without awaiting it.
    Launch,
    /// Sleep `GRACE_PERIOD_SECS`.
    Settle,
    /// Probe the endpoint with `RETRY_PROBE_SECS`.
    ProbeRetry,
    /// Terminal: report the status in `Done`.
    Report,
    /// Nothing to do: the event did not belong to this state.
    Idle,
}

pub open spec fn spec_health_start() -> (HealthState, HealthAction) {
    (HealthState::FirstProbe, HealthAction::ProbeQuick)
}

pub open spec fn spec_health_step(st: HealthState, ev: HealthEvent) -> (HealthState, HealthAction) {
    match (st, ev) {
        (HealthState::FirstProbe, HealthEvent::Probe(true)) => (
            HealthState::Done(HealthStatus::AlreadyRunning),
            HealthAction::Report,
        ),
        (HealthState::FirstProbe, HealthEvent::Probe(false)) => (
            HealthState::Launching,
            HealthAction::Launch,
        ),
        (HealthState::Launching, HealthEvent::Spawned(true)) => (
            HealthState::Settling,
            HealthAction::Settle,
        ),
        (HealthState::Launching, HealthEvent::Spawned(false)) => (
            HealthState::Done(HealthStatus::SpawnFailed),
            HealthAction::Report,
        ),
        (HealthState::Settling, HealthEvent::Slept) => (
            HealthState::SecondProbe,
            HealthAction::ProbeRetry,
        ),
        (HealthState::SecondProbe, HealthEvent::Probe(true)) => (
            HealthState::Done(HealthStatus::Started),
            HealthAction::Report,
        ),
        (HealthState::SecondProbe, HealthEvent::Probe(false)) => (
            HealthState::Done(HealthStatus::NotResponding),
            HealthAction::Report,
        ),
        (s, _) => (s, HealthAction::Idle),
    }
}

/// Begin one health check. Every call starts fresh: the machine holds no
/// cached answer from an earlier call.
pub fn health_start() -> (r: (HealthState, HealthAction))
    ensures
        r == spec_health_start(),
{
    (HealthState::FirstProbe, HealthAction::ProbeQuick)
}

/// Advance the machine by one observed event.
pub fn health_step(st: &HealthState, ev: &HealthEvent) -> (r: (HealthState, HealthAction))
    ensures
        r == spec_health_step(*st, *ev),
{
    match (st, ev) {
        (HealthState::FirstProbe, HealthEvent::Probe(true)) => (
            HealthState::Done(HealthStatus::AlreadyRunning),
            HealthAction::Report,
        ),
        (HealthState::FirstProbe, HealthEvent::Probe(false)) => (
            HealthState::Launching,
            HealthAction::Launch,
        ),
        (HealthState::Launching, HealthEvent::Spawned(true)) => (
            HealthState::Settling,
            HealthAction::Settle,
        ),
        (HealthState::Launching, HealthEvent::Spawned(false)) => (
            HealthState::Done(HealthStatus::SpawnFailed),
            HealthAction::Report,
        ),
        (HealthState::Settling, HealthEvent::Slept) => (
            HealthState::SecondProbe,
            HealthAction::ProbeRetry,
        ),
        (HealthState::SecondProbe, HealthEvent::Probe(true)) => (
            HealthState::Done(HealthStatus::Started),
            HealthAction::Report,
        ),
        (HealthState::SecondProbe, HealthEvent::Probe(false)) => (
            HealthState::Done(HealthStatus::NotResponding),
            HealthAction::Report,
        ),
        (s, _) => (*s, HealthAction::Idle),
    }
}

// ---------------------------------------------------------------------------
// Runs of the machine
// ---------------------------------------------------------------------------

pub open spec fn health_run(st: HealthState, evs: Seq<HealthEvent>) -> HealthState
    decreases evs.len(),
{
    if evs.len() == 0 {
        st
    } else {
        health_run(spec_health_step(st, evs[0]).0, evs.drop_first())
    }
}

/// The actions a run emits, in order.
pub open spec fn health_actions(st: HealthState, evs: Seq<HealthEvent>) -> Seq<HealthAction>
    decreases evs.len(),
{
    if evs.len() == 0 {
        Seq::empty()
    } else {
        seq![spec_health_step(st, evs[0]).1] + health_actions(
            spec_health_step(st, evs[0]).0,
            evs.drop_first(),
        )
    }
}

/// A terminal state never launches, whatever events still arrive.
pub proof fn lemma_done_never_launches(o: HealthStatus, evs: Seq<HealthEvent>)
    ensures
        !health_actions(HealthState::Done(o), evs).contains(HealthAction::Launch),
    decreases evs.len(),
{
    if evs.len() > 0 {
        let first = spec_health_step(HealthState::Done(o), evs[0]);
        assert(first == (HealthState::Done(o), HealthAction::Idle));
        lemma_done_never_launches(o, evs.drop_first());
        let acts = health_actions(HealthState::Done(o), evs);
        let rest = health_actions(HealthState::Done(o), evs.drop_first());
        assert forall|i: int| 0 <= i < acts.len() implies acts[i] != HealthAction::Launch by {
            if i == 0 {
                assert(acts[0] == HealthAction::Idle);
            } else {
                assert(acts[i] == rest[i - 1]);
                assert(!rest.contains(HealthAction::Launch));
                assert(rest[i - 1] != HealthAction::Launch);
            }
        }
    }
}

/// Idempotence of `ensureRunning` on a healthy endpoint: when the first
/// probe answers with success, the whole run emits no launch action, so a
/// repeated call on a healthy endpoint spawns the launch command zero
/// times.
pub proof fn lemma_healthy_probe_never_launches(evs: Seq<HealthEvent>)
    requires
        evs.len() > 0,
        evs[0] == HealthEvent::Probe(true),
    ensures
        !health_actions(HealthState::FirstProbe, evs).contains(HealthAction::Launch),
{
    let first = spec_health_step(HealthState::FirstProbe, evs[0]);
    assert(first.0 == HealthState::Done(HealthStatus::AlreadyRunning));
    assert(first.1 == HealthAction::Report);
    lemma_done_never_launches(HealthStatus::AlreadyRunning, evs.drop_first());
    let acts = health_actions(HealthState::FirstProbe, evs);
    let rest = health_actions(HealthState::Done(HealthStatus::AlreadyRunning), evs.drop_first());
    assert forall|i: int| 0 <= i < acts.len() implies acts[i] != HealthAction::Launch by {
        if i == 0 {
            assert(acts[0] == HealthAction::Report);
        } else {
            assert(acts[i] == rest[i - 1]);
            assert(!rest.contains(HealthAction::Launch));
            assert(rest[i - 1] != HealthAction::Launch);
        }
    }
}

} // verus!
