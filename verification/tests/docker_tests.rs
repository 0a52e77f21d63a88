use container_keeper::docker::{DockerClient, MAX_CONNECT_RETRIES};

#[test]
fn the_default_socket_is_the_usual_one() {
    assert_eq!(DockerClient::default_socket_path(), "/var/run/docker.sock");
}

#[test]
fn three_connection_attempts_are_allowed() {
    assert_eq!(MAX_CONNECT_RETRIES, 3);
    assert!(DockerClient::should_retry(0));
    assert!(DockerClient::should_retry(2));
    assert!(!DockerClient::should_retry(3));
}

#[test]
fn a_context_inspection_yields_its_socket_path() {
    let output = "[\n    {\n        \"Name\": \"default\",\n        \"Endpoints\": {\n            \"docker\": {\n                \"Host\": \"unix:///var/run/docker.sock\",\n                \"SkipTLSVerify\": false\n            }\n        }\n    }\n]\n";
    assert_eq!(
        DockerClient::parse_socket_path(output).as_deref(),
        Some("/var/run/docker.sock")
    );
}

#[test]
fn a_nonstandard_socket_path_is_extracted_and_trimmed() {
    let output = "{\n  \"Host\": \"unix:///home/user/.docker/run/docker.sock\", \n}\n";
    assert_eq!(
        DockerClient::parse_socket_path(output).as_deref(),
        Some("/home/user/.docker/run/docker.sock")
    );
}

#[test]
fn output_without_a_host_line_yields_nothing() {
    assert_eq!(DockerClient::parse_socket_path("{}"), None);
    assert_eq!(DockerClient::parse_socket_path(""), None);
}

#[test]
fn a_host_that_is_not_a_unix_socket_yields_nothing() {
    let output = "{\n  \"Host\": \"tcp://127.0.0.1:2375\",\n}\n";
    assert_eq!(DockerClient::parse_socket_path(output), None);
}

#[test]
fn only_the_host_line_is_searched_for_the_scheme() {
    // the scheme stands on a different line than the host
    let output = "{\n  \"Host\": \"tcp://x\",\n  \"Other\": \"unix:///tmp/a.sock\",\n}\n";
    assert_eq!(DockerClient::parse_socket_path(output), None);
}
