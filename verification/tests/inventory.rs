use dockwatch::inventory::{
    compose_project, compose_service, container_display_name, parse_command_line,
    strip_leading_slashes, summarize_system, ContainerInfo,
};
use dockwatch::telemetry::resolve_container_name;
use std::collections::HashMap;

fn container(state: &str) -> ContainerInfo {
    ContainerInfo {
        id: "0123456789abcdef".to_string(),
        name: "web".to_string(),
        image: "nginx:latest".to_string(),
        status: "Up 2 hours".to_string(),
        state: state.to_string(),
        created: 1700000000,
        ports: Vec::new(),
        project: None,
        service: None,
        labels: HashMap::new(),
    }
}

#[test]
fn display_name_drops_the_leading_slash() {
    assert_eq!(
        container_display_name(&vec!["/web".to_string()]),
        "web"
    );
    assert_eq!(strip_leading_slashes("//double"), "double");
    assert_eq!(strip_leading_slashes("plain"), "plain");
}

#[test]
fn missing_names_fall_back_to_unnamed() {
    assert_eq!(container_display_name(&Vec::new()), "unnamed");
}

#[test]
fn compose_project_prefers_the_primary_label() {
    let labels = vec![
        ("com.docker.compose.project.name".to_string(), "fallback".to_string()),
        ("com.docker.compose.project".to_string(), "shop".to_string()),
    ];
    assert_eq!(compose_project(&labels), Some("shop".to_string()));
}

#[test]
fn compose_project_falls_back_to_the_name_label() {
    let labels = vec![
        ("com.docker.compose.project.name".to_string(), "shop".to_string()),
        ("unrelated".to_string(), "x".to_string()),
    ];
    assert_eq!(compose_project(&labels), Some("shop".to_string()));
}

#[test]
fn compose_labels_absent_mean_none() {
    let labels = vec![("unrelated".to_string(), "x".to_string())];
    assert_eq!(compose_project(&labels), None);
    assert_eq!(compose_service(&labels), None);
    assert_eq!(compose_project(&Vec::new()), None);
}

#[test]
fn compose_service_is_read_from_its_label() {
    let labels = vec![("com.docker.compose.service".to_string(), "db".to_string())];
    assert_eq!(compose_service(&labels), Some("db".to_string()));
}

#[test]
fn summary_splits_running_from_stopped() {
    let containers = vec![
        container("running"),
        container("exited"),
        container("running"),
        container("paused"),
    ];
    let info = summarize_system(&containers, 7, 3, 2);
    assert_eq!(info.containers_total, 4);
    assert_eq!(info.containers_running, 2);
    assert_eq!(info.containers_stopped, 2);
    assert_eq!(info.images_total, 7);
    assert_eq!(info.volumes_total, 3);
    assert_eq!(info.networks_total, 2);
}

#[test]
fn summary_of_nothing_is_all_zero() {
    let info = summarize_system(&Vec::new(), 0, 0, 0);
    assert_eq!(info.containers_total, 0);
    assert_eq!(info.containers_running, 0);
    assert_eq!(info.containers_stopped, 0);
}

#[test]
fn command_lines_split_at_whitespace() {
    let tc = parse_command_line("ls -la /tmp").expect("a command");
    assert_eq!(tc.command, "ls");
    assert_eq!(tc.args, vec!["-la".to_string(), "/tmp".to_string()]);
    assert!(tc.working_dir.is_none());
}

#[test]
fn command_without_arguments() {
    let tc = parse_command_line("  pwd  ").expect("a command");
    assert_eq!(tc.command, "pwd");
    assert!(tc.args.is_empty());
}

#[test]
fn empty_command_line_is_no_command() {
    assert!(parse_command_line("").is_none());
    assert!(parse_command_line("   \t ").is_none());
}

#[test]
fn resolved_name_strips_the_slash() {
    assert_eq!(
        resolve_container_name("0123456789abcdef", Some("/api")),
        "api"
    );
}

#[test]
fn unresolved_name_uses_a_short_id_prefix() {
    assert_eq!(
        resolve_container_name("0123456789abcdef", None),
        "container-01234567"
    );
    assert_eq!(resolve_container_name("abc", None), "container-abc");
}
