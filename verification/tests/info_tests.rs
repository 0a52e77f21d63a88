use container_keeper::info::container_info_of;
use container_keeper::models::{ContainerConfig, HostSettings, PortBinding, RuntimeConfig};

fn sample_config() -> ContainerConfig {
    ContainerConfig {
        container_id: "c1".to_string(),
        name: "web".to_string(),
        image: "nginx:latest".to_string(),
        host_config: Some(HostSettings {
            port_bindings: vec![
                PortBinding {
                    container_port: "80/tcp".to_string(),
                    host_ip: "0.0.0.0".to_string(),
                    host_port: "8080".to_string(),
                },
                PortBinding {
                    container_port: "443/tcp".to_string(),
                    host_ip: "0.0.0.0".to_string(),
                    host_port: String::new(),
                },
            ],
            binds: vec!["/srv:/usr/share/nginx/html".to_string()],
            engine_host_config: None,
        }),
        config: Some(RuntimeConfig {
            hostname: None,
            domainname: None,
            user: None,
            attach_stdin: None,
            attach_stdout: None,
            attach_stderr: None,
            exposed_ports: vec!["80/tcp".to_string()],
            tty: Some(true),
            open_stdin: None,
            stdin_once: None,
            env: vec!["MODE=prod".to_string()],
            cmd: vec!["nginx".to_string()],
            volumes: vec!["/var/cache/nginx".to_string()],
            working_dir: None,
            entrypoint: Vec::new(),
            network_disabled: None,
            mac_address: None,
            labels: vec![("app".to_string(), "web".to_string())],
        }),
        ip_address: Some("172.17.0.2".to_string()),
    }
}

#[test]
fn the_shown_picture_reflects_the_stored_configuration() {
    let cfg = sample_config();
    let info = container_info_of(&cfg, "running".to_string());
    assert_eq!(info.id, "c1");
    assert_eq!(info.name, "web");
    assert_eq!(info.image, "nginx:latest");
    assert_eq!(info.status, "running");
    assert_eq!(info.ports, vec!["8080:80".to_string(), "443/tcp".to_string()]);
    assert_eq!(info.mounts, vec!["/srv:/usr/share/nginx/html".to_string()]);
    assert_eq!(info.env, vec!["MODE=prod".to_string()]);
    assert_eq!(info.ip_address.as_deref(), Some("172.17.0.2"));
    assert!(info.host_config.is_some());
    assert!(info.config.is_some());
}

#[test]
fn a_bare_configuration_shows_empty_summaries() {
    let cfg = ContainerConfig::new(
        "c2".to_string(),
        "db".to_string(),
        "postgres:16".to_string(),
        None,
        None,
    );
    let info = container_info_of(&cfg, "unknown".to_string());
    assert!(info.ports.is_empty());
    assert!(info.mounts.is_empty());
    assert!(info.env.is_empty());
    assert_eq!(info.ip_address, None);
    assert_eq!(info.status, "unknown");
}
