use container_keeper::create::{
    classify_progress, normalize_image, plan_create, ProgressKind, ProgressTracker,
};

#[test]
fn an_untagged_image_gets_the_default_tag() {
    assert_eq!(normalize_image("redis"), "redis:latest");
    assert_eq!(normalize_image("nginx:1.25"), "nginx:1.25");
    assert_eq!(normalize_image("registry.example:5000/app"), "registry.example:5000/app");
}

#[test]
fn a_create_request_is_planned_exactly() {
    let ports = vec!["6380:6379".to_string()];
    let mounts: Vec<String> = Vec::new();
    let env = vec!["FOO=bar".to_string()];
    let plan = plan_create("app", "redis", &ports, &mounts, &env);
    assert_eq!(plan.name, "app");
    assert_eq!(plan.image, "redis:latest");
    assert_eq!(plan.port_bindings.len(), 1);
    assert_eq!(plan.port_bindings[0].container_port, "6379/tcp");
    assert_eq!(plan.port_bindings[0].host_ip, "0.0.0.0");
    assert_eq!(plan.port_bindings[0].host_port, "6380");
    assert_eq!(plan.exposed_ports, vec!["6379/tcp".to_string()]);
    assert!(plan.binds.is_empty());
    assert_eq!(plan.env, vec!["FOO=bar".to_string()]);
}

#[test]
fn a_port_string_without_a_colon_is_skipped() {
    let ports = vec!["8080".to_string(), "443:8443".to_string()];
    let plan = plan_create("app", "img:1", &ports, &Vec::new(), &Vec::new());
    assert_eq!(plan.port_bindings.len(), 1);
    assert_eq!(plan.port_bindings[0].host_port, "443");
    assert_eq!(plan.port_bindings[0].container_port, "8443/tcp");
}

#[test]
fn the_planned_configuration_is_stored_under_the_new_id() {
    let ports = vec!["6380:6379".to_string()];
    let mounts = vec!["/data:/var/lib/redis".to_string()];
    let env = vec!["FOO=bar".to_string()];
    let plan = plan_create("app", "redis", &ports, &mounts, &env);
    let cfg = plan.into_config("c9".to_string(), Some("172.17.0.3".to_string()));
    assert_eq!(cfg.container_id, "c9");
    assert_eq!(cfg.name, "app");
    assert_eq!(cfg.image, "redis:latest");
    let host = cfg.host_config.unwrap();
    assert_eq!(host.binds, vec!["/data:/var/lib/redis".to_string()]);
    assert_eq!(host.port_bindings.len(), 1);
    assert!(host.engine_host_config.is_none());
    let runtime = cfg.config.unwrap();
    assert_eq!(runtime.env, vec!["FOO=bar".to_string()]);
    assert_eq!(runtime.exposed_ports, vec!["6379/tcp".to_string()]);
    assert!(runtime.labels.is_empty());
    assert!(runtime.volumes.is_empty());
    assert_eq!(runtime.tty, None);
    assert_eq!(cfg.ip_address.as_deref(), Some("172.17.0.3"));
}

#[test]
fn repeated_identical_progress_lines_are_shown_once() {
    let mut t = ProgressTracker::new();
    assert!(t.note("layer1", "Downloading", "10%"));
    assert!(!t.note("layer1", "Downloading", "10%"));
    assert!(t.note("layer1", "Downloading", "55%"));
    assert!(t.note("layer2", "Downloading", "55%"));
    assert!(t.note("layer1", "Pull complete", ""));
    assert!(!t.note("layer1", "Pull complete", ""));
}

#[test]
fn progress_lines_are_sorted_by_phase() {
    assert!(matches!(classify_progress("Pull complete"), ProgressKind::PullComplete));
    assert!(matches!(classify_progress("Downloading"), ProgressKind::Downloading));
    assert!(matches!(classify_progress("Extracting"), ProgressKind::Extracting));
    assert!(matches!(classify_progress("Waiting"), ProgressKind::Other));
}
