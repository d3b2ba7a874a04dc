use canine::api::Account;
use canine::client::{
    check_status, contains_text, create_one_off_pod, deploy_project, get_builds, get_pod, has_account,
    kill_build, me, request_headers, restart_add_on, ApiError, Auth, CanineConfig, CanineError, Method,
    DEFAULT_HOST,
};
use canine::value::Value;

fn account(slug: &str) -> Account {
    Account { id: 1, slug: slug.to_string() }
}

#[test]
fn request_paths() {
    assert_eq!(me().path, "/api/v1/me");
    assert_eq!(get_pod("shop", "pod-1").path, "/api/v1/projects/shop/processes/pod-1");
    assert_eq!(get_builds(&Some("shop".to_string())).path, "/api/v1/builds?project_id=shop");
    assert_eq!(get_builds(&None).path, "/api/v1/builds");
    let k = kill_build("b9");
    assert_eq!((k.method, k.path.as_str()), (Method::Put, "/api/v1/builds/b9/kill"));
    let r = restart_add_on("redis");
    assert_eq!((r.method, r.path.as_str()), (Method::Put, "/api/v1/add_ons/redis/restart"));
    assert_eq!(create_one_off_pod("shop").method, Method::Post);
}

#[test]
fn deploy_request_body() {
    let r = deploy_project("shop", true);
    assert_eq!(r.path, "/api/v1/projects/shop/deploy");
    assert_eq!(r.method, Method::Post);
    assert_eq!(r.body, Some(Value::Mapping(vec![("skip_build".to_string(), Value::Bool(true))])));
}

#[test]
fn headers_for_api_key_and_account() {
    let h = request_headers(&Auth::ApiKey("k1".to_string()), &Some("acme".to_string()));
    assert_eq!(
        h,
        vec![("X-ACCOUNT-ID".to_string(), "acme".to_string()), ("X-API-KEY".to_string(), "k1".to_string())]
    );
    assert!(request_headers(&Auth::Bearer("t".to_string()), &None).is_empty());
}

#[test]
fn status_classification() {
    assert_eq!(check_status(204, "ok".to_string()).unwrap(), "ok");
    for status in [401u16, 403, 404, 502, 199, 300] {
        match check_status(status, "why".to_string()) {
            Err(ApiError::ServerError { status: s, body }) => {
                assert_eq!(s, status);
                assert_eq!(body, "why");
            }
            other => panic!("unexpected {:?}", other),
        }
    }
}

#[test]
fn substring_search() {
    assert!(contains_text("acme-staging", "staging"));
    assert!(contains_text("acme", ""));
    assert!(!contains_text("acme", "acme-staging"));
    assert!(!contains_text("", "a"));
}

#[test]
fn account_matching() {
    let accounts = vec![account("acme"), account("globex-prod")];
    assert!(has_account(&accounts, "globex"));
    assert!(!has_account(&accounts, "initech"));
    assert!(!has_account(&vec![], "acme"));
}

#[test]
fn config_defaults_and_missing_token() {
    let cfg = CanineConfig { host: None, token: None, account: None };
    assert_eq!(cfg.host_or_default(), DEFAULT_HOST);
    assert!(matches!(cfg.credentials(), Err(CanineError::NoToken)));
    let cfg = CanineConfig { host: Some("http://localhost:3000".to_string()), token: Some("k".to_string()), account: None };
    match cfg.credentials() {
        Ok((host, Auth::ApiKey(k))) => {
            assert_eq!(host, "http://localhost:3000");
            assert_eq!(k, "k");
        }
        other => panic!("unexpected {:?}", other),
    }
    let switched = cfg.change_account("globex");
    assert_eq!(switched.account.as_deref(), Some("globex"));
    assert_eq!(switched.token.as_deref(), Some("k"));
}
