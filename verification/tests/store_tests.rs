use container_keeper::models::{
    ContainerConfig, CoreError, HostSettings, PortBinding, RuntimeConfig,
};
use container_keeper::store::ConfigStore;

fn cfg(id: &str, name: &str, image: &str) -> ContainerConfig {
    ContainerConfig::new(id.to_string(), name.to_string(), image.to_string(), None, None)
}

#[test]
fn get_reflects_the_last_write() {
    let mut s = ConfigStore::new();
    s.upsert(cfg("c1", "web", "nginx:latest"));
    s.upsert(cfg("c1", "web", "nginx:1.25"));
    let got = s.get("c1").unwrap();
    assert_eq!(got.image, "nginx:1.25");
    assert_eq!(got.name, "web");
    assert_eq!(s.len(), 1);
}

#[test]
fn initial_load_skips_an_id_already_known() {
    let mut s = ConfigStore::new();
    assert!(s.insert_if_absent(cfg("c1", "web", "nginx:latest")));
    assert!(!s.insert_if_absent(cfg("c1", "other", "redis")));
    assert_eq!(s.get("c1").unwrap().name, "web");
    assert_eq!(s.len(), 1);
}

#[test]
fn remove_deletes_only_the_named_entry() {
    let mut s = ConfigStore::new();
    s.upsert(cfg("c1", "web", "nginx"));
    s.upsert(cfg("c2", "db", "postgres"));
    assert!(s.remove("c1"));
    assert!(!s.remove("c1"));
    assert!(s.get("c1").is_none());
    assert_eq!(s.get("c2").unwrap().name, "db");
    assert_eq!(s.len(), 1);
}

#[test]
fn take_hands_back_the_removed_entry() {
    let mut s = ConfigStore::new();
    s.upsert(cfg("c1", "web", "nginx"));
    let taken = s.take("c1").unwrap();
    assert_eq!(taken.container_id, "c1");
    assert!(s.take("c1").is_none());
}

#[test]
fn migrate_moves_the_entry_and_keeps_name_and_image() {
    let mut s = ConfigStore::new();
    let mut c = cfg("a", "web", "nginx:latest");
    c.ip_address = Some("172.17.0.2".to_string());
    s.upsert(c);
    let r = s.migrate("a", "b".to_string(), Some("172.17.0.9".to_string()));
    assert!(r.is_ok());
    assert!(s.get("a").is_none());
    let moved = s.get("b").unwrap();
    assert_eq!(moved.container_id, "b");
    assert_eq!(moved.name, "web");
    assert_eq!(moved.image, "nginx:latest");
    assert_eq!(moved.ip_address.as_deref(), Some("172.17.0.9"));
    assert_eq!(s.len(), 1);
}

#[test]
fn migrate_of_an_unknown_id_changes_nothing() {
    let mut s = ConfigStore::new();
    s.upsert(cfg("c1", "web", "nginx"));
    let r = s.migrate("ghost", "b".to_string(), None);
    assert_eq!(r, Err(CoreError::NotFound));
    assert_eq!(s.len(), 1);
    assert!(s.get("c1").is_some());
    assert!(s.get("b").is_none());
}

#[test]
fn all_returns_every_entry_once() {
    let mut s = ConfigStore::new();
    s.upsert(cfg("c1", "web", "nginx"));
    s.upsert(cfg("c2", "db", "postgres"));
    s.upsert(cfg("c1", "web2", "nginx"));
    let mut ids: Vec<String> = s.all().into_iter().map(|c| c.container_id).collect();
    ids.sort();
    assert_eq!(ids, vec!["c1".to_string(), "c2".to_string()]);
}

#[test]
fn snapshot_is_a_copy() {
    let mut s = ConfigStore::new();
    s.upsert(cfg("c1", "web", "nginx"));
    let snap = s.snapshot("c1").unwrap();
    s.remove("c1");
    assert_eq!(snap.name, "web");
    assert!(s.snapshot("c1").is_none());
}

#[test]
fn migrate_carries_the_whole_snapshot() {
    let mut s = ConfigStore::new();
    let cfg = ContainerConfig {
        container_id: "a".to_string(),
        name: "web".to_string(),
        image: "nginx:latest".to_string(),
        host_config: Some(HostSettings {
            port_bindings: vec![PortBinding {
                container_port: "80/tcp".to_string(),
                host_ip: "0.0.0.0".to_string(),
                host_port: "8080".to_string(),
            }],
            binds: vec!["/srv:/www".to_string()],
            engine_host_config: None,
        }),
        config: Some(RuntimeConfig {
            hostname: Some("web-1".to_string()),
            domainname: None,
            user: Some("nginx".to_string()),
            attach_stdin: None,
            attach_stdout: None,
            attach_stderr: None,
            exposed_ports: vec!["80/tcp".to_string()],
            tty: Some(true),
            open_stdin: Some(false),
            stdin_once: None,
            env: vec!["MODE=prod".to_string()],
            cmd: vec!["nginx".to_string(), "-g".to_string()],
            volumes: vec!["/var/cache/nginx".to_string()],
            working_dir: Some("/srv".to_string()),
            entrypoint: Vec::new(),
            network_disabled: Some(false),
            mac_address: Some("02:42:ac:11:00:02".to_string()),
            labels: vec![("app".to_string(), "web".to_string())],
        }),
        ip_address: None,
    };
    s.upsert(cfg);
    s.migrate("a", "b".to_string(), Some("172.17.0.4".to_string())).unwrap();
    let moved = s.get("b").unwrap();
    let host = moved.host_config.as_ref().unwrap();
    assert_eq!(host.binds, vec!["/srv:/www".to_string()]);
    assert_eq!(host.port_bindings[0].host_port, "8080");
    let runtime = moved.config.as_ref().unwrap();
    assert_eq!(runtime.hostname.as_deref(), Some("web-1"));
    assert_eq!(runtime.user.as_deref(), Some("nginx"));
    assert_eq!(runtime.tty, Some(true));
    assert_eq!(runtime.volumes, vec!["/var/cache/nginx".to_string()]);
    assert_eq!(runtime.mac_address.as_deref(), Some("02:42:ac:11:00:02"));
    assert_eq!(runtime.labels, vec![("app".to_string(), "web".to_string())]);
    assert_eq!(runtime.cmd, vec!["nginx".to_string(), "-g".to_string()]);
}
