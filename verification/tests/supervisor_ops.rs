use kugou_music::supervisor::{
    finish_stop, StartPlan, StatusMessage, StopPlan, Supervisor, SupervisorError,
};

#[test]
fn start_spawns_only_once() {
    let mut sup = Supervisor::new();
    assert!(!sup.is_running());
    assert_eq!(sup.plan_start(8080), StartPlan::Spawn { port: 8080 });
    let status = sup.record_start_outcome(8080, Ok(42)).unwrap();
    assert_eq!(status, StatusMessage::Started { port: 8080 });
    assert!(sup.is_running());
    // a second and a third start plan no spawn at all
    assert_eq!(sup.plan_start(8080), StartPlan::AlreadyRunning);
    assert_eq!(sup.plan_start(9000), StartPlan::AlreadyRunning);
}

#[test]
fn stop_with_nothing_running_is_a_success() {
    let mut sup = Supervisor::new();
    assert_eq!(sup.plan_stop(), StopPlan::AlreadyStopped);
    assert_eq!(
        StatusMessage::AlreadyStopped.render(),
        "Kugou API server is not running"
    );
}

#[test]
fn stop_kills_the_started_process() {
    let mut sup = Supervisor::new();
    sup.record_start_outcome(3000, Ok(7)).unwrap();
    assert_eq!(sup.plan_stop(), StopPlan::Kill { pid: 7 });
    // the handle left the managed state before the kill is even issued
    assert!(!sup.is_running());
    let status = finish_stop(Ok(())).unwrap();
    assert_eq!(status, StatusMessage::Stopped);
    // stopping again reports already stopped
    assert_eq!(sup.plan_stop(), StopPlan::AlreadyStopped);
}

#[test]
fn failed_spawn_keeps_nothing_managed() {
    let mut sup = Supervisor::new();
    let err = sup
        .record_start_outcome(8080, Err("boom".to_string()))
        .unwrap_err();
    match &err {
        SupervisorError::Spawn { detail } => assert_eq!(detail, "boom"),
        other => panic!("unexpected error: {:?}", other),
    }
    assert!(!sup.is_running());
    assert_eq!(err.message(), "Failed to start Kugou API server: boom");
}

#[test]
fn failed_kill_is_a_termination_error() {
    let err = finish_stop(Err("denied".to_string())).unwrap_err();
    match &err {
        SupervisorError::Termination { detail } => assert_eq!(detail, "denied"),
        other => panic!("unexpected error: {:?}", other),
    }
    assert_eq!(err.message(), "Failed to stop Kugou API server: denied");
}

#[test]
fn status_messages_render_exactly() {
    assert_eq!(
        StatusMessage::AlreadyRunning.render(),
        "Kugou API server is already running"
    );
    assert_eq!(
        StatusMessage::Started { port: 3000 }.render(),
        "Kugou API server started on port 3000"
    );
    assert_eq!(StatusMessage::Stopped.render(), "Kugou API server stopped");
}

#[test]
fn error_messages_render_exactly() {
    assert_eq!(
        SupervisorError::Lock.message(),
        "Supervisor lock is poisoned"
    );
    let err = SupervisorError::DirectoryResolution {
        detail: "no base dir".to_string(),
    };
    assert_eq!(
        err.message(),
        "Failed to resolve server directory: no base dir"
    );
}

#[test]
fn port_zero_renders_as_a_plain_zero() {
    assert_eq!(
        StatusMessage::Started { port: 0 }.render(),
        "Kugou API server started on port 0"
    );
}
