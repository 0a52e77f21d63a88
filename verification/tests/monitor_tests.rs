use container_keeper::models::{ContainerConfig, CoreError};
use container_keeper::monitor::{
    classify_event, select_ip, sweep_ids, ContainerMonitor, ContainerSummary, EngineEvent,
    EventClass, NetworkEntry,
};

fn cfg(id: &str, name: &str, image: &str) -> ContainerConfig {
    ContainerConfig::new(id.to_string(), name.to_string(), image.to_string(), None, None)
}

fn event(container: bool, action: Option<&str>, id: Option<&str>) -> EngineEvent {
    EngineEvent {
        container_event: container,
        action: action.map(|s| s.to_string()),
        actor_id: id.map(|s| s.to_string()),
    }
}

#[test]
fn die_stop_and_kill_demand_a_restart_decision() {
    for action in ["die", "stop", "kill"] {
        let r = classify_event(event(true, Some(action), Some("c1")));
        assert!(matches!(r, EventClass::Stop { ref id } if id == "c1"));
    }
}

#[test]
fn start_resets_the_baseline() {
    let r = classify_event(event(true, Some("start"), Some("c1")));
    assert!(matches!(r, EventClass::Start { ref id } if id == "c1"));
}

#[test]
fn other_events_are_ignored() {
    assert!(matches!(
        classify_event(event(true, Some("pause"), Some("c1"))),
        EventClass::Ignored
    ));
    assert!(matches!(
        classify_event(event(false, Some("die"), Some("c1"))),
        EventClass::Ignored
    ));
    assert!(matches!(classify_event(event(true, None, Some("c1"))), EventClass::Ignored));
    assert!(matches!(classify_event(event(true, Some("die"), None)), EventClass::Ignored));
}

#[test]
fn sweep_plans_one_attempt_per_listed_id() {
    let listing = vec![
        ContainerSummary { id: Some("c1".to_string()), image: Some("nginx".to_string()) },
        ContainerSummary { id: None, image: Some("lost".to_string()) },
        ContainerSummary { id: Some("c2".to_string()), image: None },
    ];
    let ids = sweep_ids(&listing);
    assert_eq!(ids, vec!["c1".to_string(), "c2".to_string()]);
}

#[test]
fn sweeping_twice_plans_the_same_attempts_and_leaves_no_duplicates() {
    let listing = vec![
        ContainerSummary { id: Some("c1".to_string()), image: None },
        ContainerSummary { id: Some("c2".to_string()), image: None },
    ];
    let first = sweep_ids(&listing);
    let second = sweep_ids(&listing);
    assert_eq!(first, second);

    let mut m = ContainerMonitor::new();
    for round in 0..2 {
        let _ = round;
        for id in sweep_ids(&listing) {
            m.refresh_config(cfg(&id, "svc", "img"));
        }
    }
    let mut ids: Vec<String> =
        m.get_container_configs().into_iter().map(|c| c.container_id).collect();
    ids.sort();
    assert_eq!(ids, vec!["c1".to_string(), "c2".to_string()]);
}

#[test]
fn bridge_network_wins_even_without_an_address() {
    let nets = vec![
        NetworkEntry { name: "other".to_string(), ip_address: Some("10.0.0.5".to_string()) },
        NetworkEntry { name: "bridge".to_string(), ip_address: None },
    ];
    assert_eq!(select_ip(&nets), None);
}

#[test]
fn without_a_bridge_the_first_nonempty_address_is_taken() {
    let nets = vec![
        NetworkEntry { name: "a".to_string(), ip_address: Some(String::new()) },
        NetworkEntry { name: "b".to_string(), ip_address: None },
        NetworkEntry { name: "c".to_string(), ip_address: Some("10.0.0.7".to_string()) },
        NetworkEntry { name: "d".to_string(), ip_address: Some("10.0.0.8".to_string()) },
    ];
    assert_eq!(select_ip(&nets).as_deref(), Some("10.0.0.7"));
    assert_eq!(select_ip(&Vec::new()), None);
}

#[test]
fn a_failed_health_probe_is_a_connection_error() {
    assert!(ContainerMonitor::ensure_connection(true).is_ok());
    assert_eq!(ContainerMonitor::ensure_connection(false), Err(CoreError::Connection));
}

#[test]
fn status_falls_back_to_unknown() {
    assert_eq!(ContainerMonitor::get_container_status(Some("running".to_string())), "running");
    assert_eq!(ContainerMonitor::get_container_status(None), "unknown");
}

#[test]
fn initial_load_is_idempotent_but_refresh_overwrites() {
    let mut m = ContainerMonitor::new();
    assert!(m.load_initial(cfg("c1", "web", "nginx")));
    assert!(!m.load_initial(cfg("c1", "changed", "nginx")));
    assert_eq!(m.get_config("c1").unwrap().name, "web");
    m.refresh_config(cfg("c1", "changed", "nginx"));
    assert_eq!(m.get_config("c1").unwrap().name, "changed");
}

#[test]
fn a_start_event_clears_the_failure_history() {
    let mut m = ContainerMonitor::new();
    assert_eq!(m.on_stop_event("c1", 100), 1);
    assert_eq!(m.on_stop_event("c1", 105), 2);
    m.on_start_event("c1", Some(cfg("c1", "web", "nginx")));
    assert!(m.restart_record("c1").is_none());
    assert_eq!(m.get_config("c1").unwrap().name, "web");
    assert_eq!(m.on_stop_event("c1", 110), 1);
}

#[test]
fn removing_an_unknown_id_is_a_not_found_error_and_changes_nothing() {
    let mut m = ContainerMonitor::new();
    m.refresh_config(cfg("c1", "web", "nginx"));
    let r = m.finish_remove("ghost", Err(CoreError::NotFound));
    assert_eq!(r, Err(CoreError::NotFound));
    assert!(m.get_config("c1").is_some());
    assert!(m.get_config("ghost").is_none());
}

#[test]
fn a_confirmed_remove_deletes_the_entry() {
    let mut m = ContainerMonitor::new();
    m.refresh_config(cfg("c1", "web", "nginx"));
    assert!(m.finish_remove("c1", Ok(())).is_ok());
    assert!(m.get_config("c1").is_none());
}
