use pushtime::orchestrator::{
    orchestrator_step, plan_invocation, process_exit_code, Phase, RunAction, RunEvent,
};

#[test]
fn happy_path_reaches_notified() {
    let (p, a) = orchestrator_step(Phase::Start, RunEvent::ConfigOk);
    assert_eq!((p, a), (Phase::ConfigLoaded, RunAction::Proceed));
    let (p, a) = orchestrator_step(p, RunEvent::SpawnOk);
    assert_eq!((p, a), (Phase::Executing, RunAction::Proceed));
    let (p, a) = orchestrator_step(p, RunEvent::ChildExited);
    assert_eq!((p, a), (Phase::Completed, RunAction::SendNotification));
    let (p, a) = orchestrator_step(p, RunEvent::NotifyOk);
    assert_eq!((p, a), (Phase::Notified, RunAction::ExitSuccess));
    assert_eq!(process_exit_code(&a), Some(0));
}

#[test]
fn config_failure_aborts_without_notification() {
    let (p, a) = orchestrator_step(Phase::Start, RunEvent::ConfigFailed);
    assert_eq!(p, Phase::Failed);
    assert_eq!(a, RunAction::AbortFailure);
    assert_eq!(process_exit_code(&a), Some(1));
    let (p, a) = orchestrator_step(p, RunEvent::ChildExited);
    assert_eq!(p, Phase::Failed);
    assert_ne!(a, RunAction::SendNotification);
}

#[test]
fn spawn_failure_aborts_without_notification() {
    let (p, a) = orchestrator_step(Phase::ConfigLoaded, RunEvent::SpawnFailed);
    assert_eq!((p, a), (Phase::Failed, RunAction::AbortFailure));
    assert_eq!(process_exit_code(&a), Some(1));
}

#[test]
fn missing_command_aborts() {
    let (p, a) = orchestrator_step(Phase::Start, RunEvent::NoCommandGiven);
    assert_eq!((p, a), (Phase::Failed, RunAction::AbortFailure));
}

#[test]
fn notify_failure_aborts() {
    let (p, a) = orchestrator_step(Phase::Completed, RunEvent::NotifyFailed);
    assert_eq!((p, a), (Phase::Failed, RunAction::AbortFailure));
    assert_eq!(process_exit_code(&a), Some(1));
}

#[test]
fn plan_splits_command_and_args() {
    let inv = plan_invocation(vec!["echo".to_string(), "hello".to_string(), "world".to_string()])
        .unwrap();
    assert_eq!(inv.command, "echo");
    assert_eq!(inv.args, vec!["hello".to_string(), "world".to_string()]);
}

#[test]
fn plan_with_no_tokens_is_none() {
    assert!(plan_invocation(vec![]).is_none());
}
