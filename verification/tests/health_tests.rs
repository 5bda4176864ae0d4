use zama_core::health::{
    health_start, health_step, HealthAction, HealthEvent, HealthState, HealthStatus,
};

/// Drive one full health check, answering each action the way a driver
/// with the given endpoint behavior would, and count the launches.
fn drive(probe_answers: &[bool], spawn_ok: bool) -> (HealthState, usize) {
    let (mut st, mut action) = health_start();
    let mut launches = 0;
    let mut probes = probe_answers.iter();
    loop {
        let ev = match action {
            HealthAction::ProbeQuick | HealthAction::ProbeRetry => {
                HealthEvent::Probe(*probes.next().expect("a probe answer"))
            }
            HealthAction::Launch => {
                launches += 1;
                HealthEvent::Spawned(spawn_ok)
            }
            HealthAction::Settle => HealthEvent::Slept,
            HealthAction::Report | HealthAction::Idle => return (st, launches),
        };
        let (next, next_action) = health_step(&st, &ev);
        st = next;
        action = next_action;
    }
}

#[test]
fn healthy_endpoint_never_launches() {
    // Two successive checks while the endpoint is healthy: the launch
    // command is spawned zero times.
    for _ in 0..2 {
        let (st, launches) = drive(&[true], true);
        assert_eq!(st, HealthState::Done(HealthStatus::AlreadyRunning));
        assert_eq!(launches, 0);
    }
}

#[test]
fn down_endpoint_launches_once_and_reports_started() {
    let (st, launches) = drive(&[false, true], true);
    assert_eq!(st, HealthState::Done(HealthStatus::Started));
    assert_eq!(launches, 1);
}

#[test]
fn down_endpoint_that_stays_down_fails() {
    let (st, launches) = drive(&[false, false], true);
    assert_eq!(st, HealthState::Done(HealthStatus::NotResponding));
    assert_eq!(launches, 1);
}

#[test]
fn failed_spawn_is_reported() {
    let (st, launches) = drive(&[false], false);
    assert_eq!(st, HealthState::Done(HealthStatus::SpawnFailed));
    assert_eq!(launches, 1);
}

#[test]
fn out_of_protocol_events_change_nothing() {
    let st = HealthState::Done(HealthStatus::AlreadyRunning);
    let (next, action) = health_step(&st, &HealthEvent::Slept);
    assert_eq!(next, st);
    assert_eq!(action, HealthAction::Idle);
    let (next2, action2) = health_step(&HealthState::FirstProbe, &HealthEvent::Slept);
    assert_eq!(next2, HealthState::FirstProbe);
    assert_eq!(action2, HealthAction::Idle);
}
