use canine::api::{Pod, ProcessStatus};
use canine::client::{CanineError, Method};
use canine::codec::Record;
use canine::kubeconfig::Kubeconfig;
use canine::value::Value;
use canine::workflow::{
    exec_args, Action, Event, PodWait, Provisioning, Stage, WaitStep, MAX_POLL_ATTEMPTS,
    POLL_INTERVAL_MS,
};

fn text(s: &str) -> Value {
    Value::Text(s.to_string())
}

fn map(entries: Vec<(&str, Value)>) -> Value {
    Value::Mapping(entries.into_iter().map(|(k, v)| (k.to_string(), v)).collect())
}

fn pod(status: &str) -> Value {
    map(vec![("name", text("one-off-1")), ("namespace", text("shop-ns")), ("status", text(status))])
}

fn project() -> Value {
    map(vec![
        ("id", Value::Int(7)),
        ("name", text("shop")),
        ("namespace", text("shop-ns")),
        ("repository_url", text("r")),
        ("branch", text("main")),
        ("status", text("deployed")),
        ("cluster_id", Value::Int(3)),
        ("cluster_name", text("prod")),
    ])
}

fn kubeconfig_response() -> Value {
    map(vec![("kubeconfig", map(vec![("apiVersion", text("v1")), ("kind", text("Config"))]))])
}

/// Drives a wait against a source that answers `statuses` in turn; returns
/// the number of fetches, the total sleep and the final step.
fn drive(mut w: PodWait, statuses: &[ProcessStatus]) -> (usize, u64, WaitStep) {
    let mut fetches = 0;
    let mut slept = 0;
    let mut step = w.start();
    while let WaitStep::Poll(ms) = step {
        slept += ms;
        let s = statuses[fetches];
        fetches += 1;
        step = w.observe(s);
    }
    (fetches, slept, step)
}

#[test]
fn wait_gives_up_after_every_attempt() {
    let always_pending = vec![ProcessStatus::Pending; 100];
    let (fetches, slept, step) = drive(PodWait::new(MAX_POLL_ATTEMPTS, POLL_INTERVAL_MS), &always_pending);
    assert_eq!(fetches, 30);
    assert_eq!(slept, 12_000);
    assert_eq!(step, WaitStep::TimedOut);
}

#[test]
fn wait_does_not_stop_on_failed_status() {
    let mut statuses = vec![ProcessStatus::Failed, ProcessStatus::Succeeded, ProcessStatus::Unknown];
    statuses.push(ProcessStatus::Running);
    let (fetches, _, step) = drive(PodWait::new(30, 400), &statuses);
    assert_eq!(fetches, 4);
    assert_eq!(step, WaitStep::Ready);
}

#[test]
fn wait_ready_at_nth_fetch() {
    for n in 1..=30usize {
        let mut statuses = vec![ProcessStatus::Pending; n - 1];
        statuses.push(ProcessStatus::Running);
        let (fetches, slept, step) = drive(PodWait::new(30, 400), &statuses);
        assert_eq!(fetches, n);
        assert_eq!(slept, 400 * n as u64);
        assert_eq!(step, WaitStep::Ready);
    }
}

#[test]
fn wait_with_no_attempts_times_out_at_once() {
    let (fetches, slept, step) = drive(PodWait::new(0, 400), &[]);
    assert_eq!((fetches, slept, step), (0, 0, WaitStep::TimedOut));
}

fn path_of(a: &Action) -> String {
    match a {
        Action::Send(q) => q.path.clone(),
        Action::Poll { request, .. } => request.path.clone(),
        other => panic!("no request in {:?}", other),
    }
}

#[test]
fn provisioning_reaches_the_pod() {
    let (mut run, first) = Provisioning::new("shop", 30, 400);
    assert_eq!(path_of(&first), "/api/v1/projects/shop");
    let a = run.handle(Event::Responded(Ok(project())));
    assert_eq!(path_of(&a), "/api/v1/clusters/prod/download_kubeconfig");
    let a = run.handle(Event::Responded(Ok(kubeconfig_response())));
    match &a {
        Action::WriteKubeconfig(doc) => {
            let k = Kubeconfig::from_value(doc).unwrap();
            assert_eq!(k.kind, "Config");
        }
        other => panic!("expected a write, got {:?}", other),
    }
    let a = run.handle(Event::Written(Ok(())));
    match &a {
        Action::Send(q) => {
            assert_eq!(q.method, Method::Post);
            assert_eq!(q.path, "/api/v1/projects/shop/processes");
        }
        other => panic!("expected pod creation, got {:?}", other),
    }
    let a = run.handle(Event::Responded(Ok(pod("Pending"))));
    match &a {
        Action::Poll { sleep_ms, request } => {
            assert_eq!(*sleep_ms, 400);
            assert_eq!(request.path, "/api/v1/projects/shop/processes/one-off-1");
        }
        other => panic!("expected a poll, got {:?}", other),
    }
    let a = run.handle(Event::Responded(Ok(pod("Pending"))));
    assert!(matches!(a, Action::Poll { .. }));
    let a = run.handle(Event::Responded(Ok(pod("Running"))));
    match a {
        Action::Launch(p) => {
            assert_eq!(p, Pod::from_value(&pod("Running")).unwrap());
        }
        other => panic!("expected a launch, got {:?}", other),
    }
    assert_eq!(run.stage, Stage::Ready);
    assert_eq!(run.wait.attempts, 2);
}

#[test]
fn provisioning_times_out() {
    let (mut run, _) = Provisioning::new("shop", 3, 10);
    run.handle(Event::Responded(Ok(project())));
    run.handle(Event::Responded(Ok(kubeconfig_response())));
    run.handle(Event::Written(Ok(())));
    let mut a = run.handle(Event::Responded(Ok(pod("Pending"))));
    let mut polls = 0;
    while let Action::Poll { .. } = a {
        polls += 1;
        a = run.handle(Event::Responded(Ok(pod("Pending"))));
    }
    assert_eq!(polls, 3);
    assert!(matches!(a, Action::Fail(CanineError::OneOffPodNeverReady)));
    assert_eq!(run.stage, Stage::TimedOut);
}

#[test]
fn malformed_kubeconfig_is_never_written() {
    let (mut run, _) = Provisioning::new("shop", 30, 400);
    run.handle(Event::Responded(Ok(project())));
    let bad = map(vec![("kubeconfig", map(vec![("kind", text("Config"))]))]);
    let a = run.handle(Event::Responded(Ok(bad)));
    match a {
        Action::Fail(CanineError::Decode(e)) => assert_eq!(e.field, "apiVersion"),
        other => panic!("expected a failure, got {:?}", other),
    }
    assert_eq!(run.stage, Stage::Failed);
}

#[test]
fn transport_error_is_surfaced_unchanged() {
    let (mut run, _) = Provisioning::new("shop", 30, 400);
    let a = run.handle(Event::Responded(Err(CanineError::Transport("connection refused".to_string()))));
    match a {
        Action::Fail(CanineError::Transport(m)) => assert_eq!(m, "connection refused"),
        other => panic!("expected the transport error, got {:?}", other),
    }
    assert_eq!(run.stage, Stage::Failed);
}

#[test]
fn write_failure_stops_the_run() {
    let (mut run, _) = Provisioning::new("shop", 30, 400);
    run.handle(Event::Responded(Ok(project())));
    run.handle(Event::Responded(Ok(kubeconfig_response())));
    let a = run.handle(Event::Written(Err("permission denied".to_string())));
    assert!(matches!(a, Action::Fail(CanineError::Io(ref m)) if m == "permission denied"));
    assert_eq!(run.stage, Stage::Failed);
}

#[test]
fn kubectl_exec_arguments() {
    let p = Pod::from_value(&pod("Running")).unwrap();
    let args = exec_args(&p, &vec!["bundle".to_string(), "exec".to_string(), "rails".to_string()]);
    assert_eq!(args, vec!["exec", "-it", "-n", "shop-ns", "one-off-1", "--", "bundle", "exec", "rails"]);
}

#[test]
fn run_against_always_pending_source() {
    let w = PodWait::new(MAX_POLL_ATTEMPTS, POLL_INTERVAL_MS);
    let (fetches, slept, step) = w.run_against(&vec![ProcessStatus::Pending; 45]);
    assert_eq!((fetches, slept, step), (30, 12_000, WaitStep::TimedOut));
}

#[test]
fn run_against_source_running_at_nth_fetch() {
    for n in 1..=30usize {
        let mut statuses = vec![ProcessStatus::Pending; n - 1];
        statuses.push(ProcessStatus::Running);
        statuses.push(ProcessStatus::Failed);
        let w = PodWait::new(30, 400);
        assert_eq!(w.run_against(&statuses), (n, 400 * n as u64, WaitStep::Ready));
    }
}

#[test]
fn run_against_source_that_runs_out() {
    let w = PodWait::new(30, 400);
    assert_eq!(w.run_against(&vec![ProcessStatus::Pending; 2]), (2, 800, WaitStep::Poll(400)));
}
