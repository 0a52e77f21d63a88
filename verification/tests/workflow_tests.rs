use container_keeper::models::{ContainerConfig, CoreError};
use container_keeper::monitor::{classify_event, ContainerMonitor, EngineEvent, EventClass};
use container_keeper::restart::{
    ContainerRestarter, EngineOp, EngineReply, RecreateWorkflow, SETTLE_DELAY_SECS,
    STOP_TIMEOUT_SECS, VERIFY_DELAY_SECS,
};

fn cfg(id: &str, name: &str, image: &str) -> ContainerConfig {
    ContainerConfig::new(id.to_string(), name.to_string(), image.to_string(), None, None)
}

#[test]
fn a_die_event_heals_the_container_under_a_new_id() {
    // The engine reported c1 running under the name "/web"; the monitor
    // stored it with the name normalized.
    let mut m = ContainerMonitor::new();
    let stored = ContainerConfig::from_inspect(
        "c1".to_string(),
        Some("/web".to_string()),
        Some("nginx:latest".to_string()),
        None,
        None,
        None,
    );
    assert_eq!(stored.name, "web");
    m.load_initial(stored);

    // A die event for c1 arrives.
    let ev = EngineEvent {
        container_event: true,
        action: Some("die".to_string()),
        actor_id: Some("c1".to_string()),
    };
    let id = match classify_event(ev) {
        EventClass::Stop { id } => id,
        _ => panic!("a die event must demand a restart"),
    };
    assert_eq!(m.on_stop_event(&id, 50), 1);

    // One recreate attempt runs against c1 and produces c2.
    let (mut wf, first) = m.begin_restart(&id).unwrap();
    assert!(matches!(first, EngineOp::Stop { ref id, timeout_secs }
        if id == "c1" && timeout_secs == STOP_TIMEOUT_SECS));
    let op = wf.step(EngineReply::Completed { ok: true });
    assert!(matches!(op, Some(EngineOp::Wait { secs }) if secs == SETTLE_DELAY_SECS));
    let op = wf.step(EngineReply::Waited);
    assert!(matches!(op, Some(EngineOp::Remove { ref id, force }) if id == "c1" && force));
    let op = wf.step(EngineReply::Completed { ok: true });
    match op {
        Some(EngineOp::Create { ref name, ref config }) => {
            assert_eq!(name, "web");
            assert_eq!(config.image, "nginx:latest");
        },
        other => panic!("expected a create call, got {:?}", other.is_some()),
    }
    let op = wf.step(EngineReply::Created { new_id: Some("c2".to_string()) });
    assert!(matches!(op, Some(EngineOp::Start { ref id }) if id == "c2"));
    let op = wf.step(EngineReply::Completed { ok: true });
    assert!(matches!(op, Some(EngineOp::Wait { secs }) if secs == VERIFY_DELAY_SECS));
    let op = wf.step(EngineReply::Waited);
    assert!(matches!(op, Some(EngineOp::Inspect { ref id }) if id == "c2"));
    let op = wf.step(EngineReply::Inspected { running: Some(true) });
    assert!(op.is_none());
    let new_id = match wf.finished() {
        Some(Ok(new_id)) => new_id,
        _ => panic!("the workflow must have succeeded"),
    };
    assert_eq!(new_id, "c2");
    assert_eq!(wf.original_id(), "c1");

    // The store migrates from c1 to c2, and the status shown afterwards is
    // what the engine reports: running.
    m.complete_restart(wf.original_id(), new_id, None).unwrap();
    assert!(m.get_config("c1").is_none());
    let moved = m.get_config("c2").unwrap();
    assert_eq!(moved.name, "web");
    assert_eq!(moved.image, "nginx:latest");
    assert_eq!(ContainerMonitor::get_container_status(Some("running".to_string())), "running");
}

#[test]
fn a_failed_stop_escalates_to_kill() {
    let (mut wf, _) = RecreateWorkflow::begin("c1".to_string(), cfg("c1", "web", "nginx"));
    let op = wf.step(EngineReply::Completed { ok: false });
    assert!(matches!(op, Some(EngineOp::Kill { ref id }) if id == "c1"));
    let op = wf.step(EngineReply::Completed { ok: true });
    assert!(matches!(op, Some(EngineOp::Wait { secs }) if secs == SETTLE_DELAY_SECS));
}

#[test]
fn stop_and_kill_both_failing_fails_the_workflow() {
    let (mut wf, _) = RecreateWorkflow::begin("c1".to_string(), cfg("c1", "web", "nginx"));
    wf.step(EngineReply::Completed { ok: false });
    let op = wf.step(EngineReply::Completed { ok: false });
    assert!(op.is_none());
    assert_eq!(wf.finished(), Some(Err(CoreError::Workflow)));
}

#[test]
fn a_failed_create_fails_the_workflow() {
    let (mut wf, _) = RecreateWorkflow::begin("c1".to_string(), cfg("c1", "web", "nginx"));
    wf.step(EngineReply::Completed { ok: true });
    wf.step(EngineReply::Waited);
    wf.step(EngineReply::Completed { ok: true });
    let op = wf.step(EngineReply::Created { new_id: None });
    assert!(op.is_none());
    assert_eq!(wf.finished(), Some(Err(CoreError::Workflow)));
}

#[test]
fn a_container_not_running_after_restart_is_a_verification_failure() {
    let (mut wf, _) = RecreateWorkflow::begin("c1".to_string(), cfg("c1", "web", "nginx"));
    wf.step(EngineReply::Completed { ok: true });
    wf.step(EngineReply::Waited);
    wf.step(EngineReply::Completed { ok: true });
    wf.step(EngineReply::Created { new_id: Some("c2".to_string()) });
    wf.step(EngineReply::Completed { ok: true });
    wf.step(EngineReply::Waited);
    let op = wf.step(EngineReply::Inspected { running: Some(false) });
    assert!(op.is_none());
    assert_eq!(wf.finished(), Some(Err(CoreError::Verification)));
}

#[test]
fn an_unanswerable_inspect_is_an_inspect_failure() {
    let (mut wf, _) = RecreateWorkflow::begin("c1".to_string(), cfg("c1", "web", "nginx"));
    wf.step(EngineReply::Completed { ok: true });
    wf.step(EngineReply::Waited);
    wf.step(EngineReply::Completed { ok: true });
    wf.step(EngineReply::Created { new_id: Some("c2".to_string()) });
    wf.step(EngineReply::Completed { ok: true });
    wf.step(EngineReply::Waited);
    wf.step(EngineReply::Inspected { running: None });
    assert_eq!(wf.finished(), Some(Err(CoreError::Inspect)));
}

#[test]
fn restarting_an_unknown_id_is_refused() {
    let m = ContainerMonitor::new();
    assert!(matches!(m.begin_restart("ghost"), Err(CoreError::NotFound)));
}

#[test]
fn the_restarter_keeps_its_first_snapshot() {
    let mut r = ContainerRestarter::new();
    assert!(r.save_container_config(cfg("c1", "web", "nginx")));
    assert!(!r.save_container_config(cfg("c1", "late", "nginx")));
    assert_eq!(r.get_config("c1").unwrap().name, "web");
    let (wf, op) = r.restart_container("c1").unwrap();
    assert_eq!(wf.original_id(), "c1");
    assert!(matches!(op, EngineOp::Stop { ref id, .. } if id == "c1"));
    assert!(matches!(r.restart_container("ghost"), Err(CoreError::NotFound)));
    assert_eq!(ContainerRestarter::get_container_status(None), "unknown");
}
