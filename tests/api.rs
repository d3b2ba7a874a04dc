use canine::api::{Account, Pod, ProcessStatus, Project, ProjectStatus, ProjectsResponse, User};
use canine::codec::{Named, Record};
use canine::value::Value;

fn text(s: &str) -> Value {
    Value::Text(s.to_string())
}

fn map(entries: Vec<(&str, Value)>) -> Value {
    Value::Mapping(entries.into_iter().map(|(k, v)| (k.to_string(), v)).collect())
}

fn project(status: &str) -> Value {
    map(vec![
        ("id", Value::Int(7)),
        ("name", text("shop")),
        ("namespace", text("shop-ns")),
        ("repository_url", text("https://example.com/shop.git")),
        ("branch", text("main")),
        ("status", text(status)),
        ("cluster_id", Value::Int(3)),
        ("cluster_name", text("prod")),
        ("ignored", Value::Bool(true)),
    ])
}

#[test]
fn unknown_pod_status_reads_as_unknown() {
    assert_eq!(ProcessStatus::from_name(&"Evicted".to_string()), Some(ProcessStatus::Unknown));
    assert_eq!(ProcessStatus::from_name(&"Running".to_string()), Some(ProcessStatus::Running));
    assert_eq!(ProcessStatus::Succeeded.name(), "Succeeded");
}

#[test]
fn project_status_names_are_strict() {
    assert_eq!(ProjectStatus::from_name(&"deployed".to_string()), Some(ProjectStatus::Deployed));
    assert_eq!(ProjectStatus::from_name(&"Deployed".to_string()), None);
    assert_eq!(ProjectStatus::Destroying.name(), "destroying");
}

#[test]
fn reads_project() {
    let p = Project::from_value(&project("creating")).unwrap();
    assert_eq!(p.id, 7);
    assert_eq!(p.cluster_name, "prod");
    assert_eq!(p.status, ProjectStatus::Creating);
    assert!(Project::from_value(&project("paused")).is_err());
}

#[test]
fn reads_projects_response() {
    let r = ProjectsResponse::from_value(&map(vec![("projects", Value::List(vec![project("deployed")]))])).unwrap();
    assert_eq!(r.projects.len(), 1);
    assert_eq!(r.projects[0].namespace, "shop-ns");
}

#[test]
fn integer_out_of_range_is_an_error() {
    let a = map(vec![("id", Value::Int(1 << 40)), ("slug", text("acme"))]);
    assert_eq!(Account::from_value(&a).unwrap_err().field, "id");
}

#[test]
fn reads_pod_with_new_phase() {
    let pod = Pod::from_value(&map(vec![
        ("name", text("one-off-1")),
        ("namespace", text("shop-ns")),
        ("status", text("Terminating")),
    ]))
    .unwrap();
    assert_eq!(pod.status, ProcessStatus::Unknown);
    assert_eq!(Pod::from_value(&pod.to_value()).unwrap(), pod);
}

#[test]
fn reads_user_with_accounts() {
    let acct = |id: i64, slug: &str| map(vec![("id", Value::Int(id)), ("slug", text(slug))]);
    let u = User::from_value(&map(vec![
        ("id", Value::Int(1)),
        ("email", text("a@b.c")),
        ("name", text("Ann")),
        ("current_account", acct(1, "acme")),
        ("accounts", Value::List(vec![acct(1, "acme"), acct(2, "globex")])),
    ]))
    .unwrap();
    assert_eq!(u.current_account.slug, "acme");
    assert_eq!(u.accounts[1].slug, "globex");
}
