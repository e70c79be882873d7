use hyperspank::config::LoadTestConfig;
use hyperspank::control::{ControlAction, ControlLoop, ControlNotice};
use hyperspank::executor::{ConnectionMode, FailureKind, RequestOutcome};
use hyperspank::orchestrator::{Orchestrator, OrchestratorAction};

#[test]
fn control_loop_stops_once_cancelled() {
    let mut c = ControlLoop::new();
    assert_eq!(c.next_action(true), ControlAction::Request);
    assert_eq!(c.record(true), ControlNotice::Quiet);
    assert_eq!(c.next_action(true), ControlAction::Request);
    assert_eq!(c.record(false), ControlNotice::Abandoned { iteration: 2 });
    assert_eq!(c.next_action(false), ControlAction::Close { iterations: 2 });
    // a token read as true again starts nothing
    assert_eq!(c.next_action(true), ControlAction::Close { iterations: 2 });
}

#[test]
fn control_loop_progress_every_tenth() {
    let mut c = ControlLoop::new();
    let mut notices = Vec::new();
    for _ in 0..20 {
        assert_eq!(c.next_action(true), ControlAction::Request);
        notices.push(c.record(true));
    }
    assert_eq!(notices[9], ControlNotice::Progress { iteration: 10 });
    assert_eq!(notices[19], ControlNotice::Progress { iteration: 20 });
    assert_eq!(notices.iter().filter(|n| **n != ControlNotice::Quiet).count(), 2);
    assert_eq!(c.next_action(false), ControlAction::Close { iterations: 20 });
}

#[test]
fn control_loop_cancelled_before_first_request() {
    let mut c = ControlLoop::new();
    assert_eq!(c.next_action(false), ControlAction::Close { iterations: 0 });
}

fn orchestrate(thread_count: u32, control: bool, joins: &[bool]) -> (Vec<OrchestratorAction>, u32) {
    let mut o = Orchestrator::new(thread_count, control);
    let mut actions = Vec::new();
    let mut reported = 0u32;
    loop {
        let a = o.next_action();
        actions.push(a);
        match a {
            OrchestratorAction::JoinWorker { index } => {
                if o.worker_joined(joins[index as usize]) {
                    reported += 1;
                }
            }
            OrchestratorAction::Finish => break,
            _ => {}
        }
    }
    (actions, reported)
}

#[test]
fn orchestration_order() {
    let (actions, reported) = orchestrate(2, true, &[true, true]);
    assert_eq!(
        actions,
        vec![
            OrchestratorAction::StartControl,
            OrchestratorAction::StartWorker { index: 0 },
            OrchestratorAction::StartWorker { index: 1 },
            OrchestratorAction::JoinWorker { index: 0 },
            OrchestratorAction::JoinWorker { index: 1 },
            OrchestratorAction::StopControl,
            OrchestratorAction::JoinControl,
            OrchestratorAction::Finish,
        ]
    );
    assert_eq!(reported, 0);
}

#[test]
fn join_failures_still_cancel_control() {
    let (clean, _) = orchestrate(3, true, &[true, true, true]);
    let (failing, reported) = orchestrate(3, true, &[false, true, false]);
    assert_eq!(failing, clean);
    assert_eq!(reported, 2);
    let (all_failing, reported) = orchestrate(3, true, &[false, false, false]);
    assert_eq!(all_failing, clean);
    assert_eq!(reported, 3);
}

#[test]
fn orchestration_without_control() {
    let (actions, _) = orchestrate(1, false, &[false]);
    assert_eq!(
        actions,
        vec![
            OrchestratorAction::StartWorker { index: 0 },
            OrchestratorAction::JoinWorker { index: 0 },
            OrchestratorAction::Finish,
        ]
    );
    let (actions, _) = orchestrate(0, false, &[]);
    assert_eq!(actions, vec![OrchestratorAction::Finish]);
}

#[test]
fn connection_mode_follows_keep_alive() {
    assert_eq!(ConnectionMode::from_keep_alive(true), ConnectionMode::KeepAlive);
    assert_eq!(ConnectionMode::from_keep_alive(false), ConnectionMode::Close);
}

#[test]
fn outcome_kinds() {
    assert!(RequestOutcome::Success.is_success());
    assert_eq!(RequestOutcome::Success.failure_kind(), None);
    let t = RequestOutcome::Failure {
        kind: FailureKind::Transport,
        detail: "connection refused".to_string(),
        at: "2020-01-01T00:00:00.000".to_string(),
    };
    assert!(!t.is_success());
    assert_eq!(t.failure_kind(), Some(FailureKind::Transport));
    let b = RequestOutcome::Failure {
        kind: FailureKind::BodyRead,
        detail: "unexpected eof".to_string(),
        at: "2020-01-01T00:00:00.001".to_string(),
    };
    assert_eq!(b.failure_kind(), Some(FailureKind::BodyRead));
}

#[test]
fn config_copies_are_independent() {
    let cfg = LoadTestConfig {
        target: "http://localhost:8080/".to_string(),
        keep_alive: false,
        control_thread: true,
        thread_count: 4,
        requests_per_thread: 100,
        delay_duration: 0,
        burst_size: 1,
        print_on_iteration: 1,
    };
    let mut copy = cfg.clone();
    copy.burst_size = 5;
    assert_eq!(cfg.burst_size, 1);
    assert_ne!(cfg, copy);
}
