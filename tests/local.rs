use canine::value::Value;
use canine::local::{
    service_status, web_port, ServiceStatus,
    check_docker_compose, credential_path_in, docker_compose_path, docker_compose_path_in, ensure_kubectl,
    gate_telepresence, join_path, DockerComposeError, KubectlError, TelepresenceError, ToolRun,
};

#[test]
fn paths_under_home() {
    assert_eq!(credential_path_in("/home/ann"), "/home/ann/.k9/kubeconfig.yaml");
    assert_eq!(docker_compose_path_in("/home/ann/"), "/home/ann/.k9/local/docker-compose.yml");
    assert_eq!(join_path("", "x"), "x");
}

#[test]
fn docker_compose_path_ends_with_file_name() {
    if let Some(p) = docker_compose_path() {
        assert!(p.ends_with("/.k9/local/docker-compose.yml"));
    }
}

#[test]
fn tool_checks() {
    assert!(matches!(ensure_kubectl(ToolRun::Missing), Err(KubectlError::NotFound)));
    assert!(ensure_kubectl(ToolRun::Exited { success: true, stderr: String::new() }).is_ok());
    match ensure_kubectl(ToolRun::Exited { success: false, stderr: "boom".to_string() }) {
        Err(KubectlError::FailedToRun(e)) => assert_eq!(e, "boom"),
        other => panic!("unexpected {:?}", other),
    }
    assert!(matches!(
        gate_telepresence(ToolRun::Unstartable("denied".to_string())),
        Err(TelepresenceError::NotExecutable(ref w)) if w == "denied"
    ));
    assert!(matches!(check_docker_compose(ToolRun::Missing), Err(DockerComposeError::NotFound)));
}

fn text(s: &str) -> Value {
    Value::Text(s.to_string())
}

fn map(entries: Vec<(&str, Value)>) -> Value {
    Value::Mapping(entries.into_iter().map(|(k, v)| (k.to_string(), v)).collect())
}

#[test]
fn compose_service_description() {
    let svc = map(vec![
        ("Service", text("web")),
        ("State", text("running")),
        ("Health", text("healthy")),
        (
            "Publishers",
            Value::List(vec![
                map(vec![("PublishedPort", Value::Int(0))]),
                map(vec![("PublishedPort", Value::Int(3000))]),
                map(vec![("TargetPort", Value::Int(5432))]),
            ]),
        ),
    ]);
    let s = service_status(&svc);
    assert_eq!(s.name, "web");
    assert_eq!(s.state, "running");
    assert_eq!(s.health, "healthy");
    assert_eq!(s.ports, vec![3000]);
}

#[test]
fn compose_service_defaults() {
    let s = service_status(&map(vec![("State", Value::Int(1))]));
    assert_eq!((s.name.as_str(), s.state.as_str(), s.health.as_str()), ("unknown", "unknown", ""));
    assert!(s.ports.is_empty());
}

#[test]
fn web_port_is_first_published_web_service() {
    let svc = |name: &str, ports: Vec<u64>| ServiceStatus {
        name: name.to_string(),
        state: "running".to_string(),
        health: String::new(),
        ports,
    };
    assert_eq!(web_port(&vec![svc("db", vec![5432]), svc("web", vec![]), svc("web", vec![3000, 3001])]), Some(3000));
    assert_eq!(web_port(&vec![svc("db", vec![5432])]), None);
}

#[test]
fn settings_and_credential_files_live_under_k9() {
    if let Some(p) = canine::client::CanineConfig::credential_path() {
        assert!(p.ends_with("/.k9/kubeconfig.yaml"));
    }
    if let Some(p) = canine::client::CanineConfig::config_path() {
        assert!(p.ends_with("/.k9/canine.yaml"));
    }
}
