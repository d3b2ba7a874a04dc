use canine::codec::{DecodeError, Record};
use canine::kubeconfig::{Cluster, Kubeconfig, User};
use canine::value::Value;

fn text(s: &str) -> Value {
    Value::Text(s.to_string())
}

fn map(entries: Vec<(&str, Value)>) -> Value {
    Value::Mapping(entries.into_iter().map(|(k, v)| (k.to_string(), v)).collect())
}

fn keys(v: &Value) -> Vec<String> {
    match v {
        Value::Mapping(m) => m.iter().map(|(k, _)| k.clone()).collect(),
        _ => panic!("not a mapping"),
    }
}

fn entry<'a>(v: &'a Value, key: &str) -> Option<&'a Value> {
    match v {
        Value::Mapping(m) => m.iter().find(|(k, _)| k == key).map(|(_, v)| v),
        _ => None,
    }
}

/// The document of a cluster with one user authenticated by token.
fn demo() -> Value {
    map(vec![
        ("apiVersion", text("v1")),
        ("kind", text("Config")),
        (
            "clusters",
            Value::List(vec![map(vec![
                ("name", text("demo")),
                ("cluster", map(vec![("server", text("https://1.2.3.4:6443"))])),
            ])]),
        ),
        (
            "contexts",
            Value::List(vec![map(vec![
                ("name", text("demo")),
                ("context", map(vec![("cluster", text("demo")), ("user", text("demo"))])),
            ])]),
        ),
        ("current-context", text("demo")),
        (
            "users",
            Value::List(vec![map(vec![
                ("name", text("demo")),
                ("user", map(vec![("token", text("abc123"))])),
            ])]),
        ),
    ])
}

#[test]
fn reads_demo_document() {
    let cfg = Kubeconfig::from_value(&demo()).unwrap();
    assert_eq!(cfg.api_version, "v1");
    assert_eq!(cfg.kind, "Config");
    assert_eq!(cfg.clusters.len(), 1);
    assert_eq!(cfg.clusters[0].name, "demo");
    assert_eq!(cfg.clusters[0].cluster.server, "https://1.2.3.4:6443");
    assert_eq!(cfg.contexts[0].context.cluster, "demo");
    assert_eq!(cfg.contexts[0].context.user, "demo");
    assert_eq!(cfg.current_context.as_deref(), Some("demo"));
    assert_eq!(cfg.users[0].user.token.as_deref(), Some("abc123"));
    assert!(cfg.preferences.is_none());
    assert!(cfg.extensions.is_empty());
    assert!(cfg.extra.is_empty());
}

#[test]
fn round_trip_document_tree() {
    let cfg = Kubeconfig::from_value(&demo()).unwrap();
    let written = cfg.to_value();
    assert!(keys(&written).contains(&"apiVersion".to_string()));
    assert_eq!(entry(&written, "current-context"), Some(&text("demo")));
    let again = Kubeconfig::from_value(&written).unwrap();
    assert_eq!(again, cfg);
}

#[test]
fn written_document_keeps_named_field_order() {
    let cfg = Kubeconfig::from_value(&demo()).unwrap();
    assert_eq!(
        keys(&cfg.to_value()),
        vec!["apiVersion", "kind", "clusters", "users", "contexts", "current-context"]
    );
}

#[test]
fn unknown_user_entry_is_kept() {
    let user = map(vec![
        ("token", text("abc123")),
        ("x-vendor-flag", map(vec![("level", Value::Int(3))])),
        ("another", Value::List(vec![Value::Bool(true), Value::Null])),
    ]);
    let u = User::from_value(&user).unwrap();
    assert_eq!(u.extra.len(), 2);
    assert_eq!(u.extra[0].0, "x-vendor-flag");
    let back = u.to_value();
    assert_eq!(entry(&back, "x-vendor-flag"), Some(&map(vec![("level", Value::Int(3))])));
    assert_eq!(entry(&back, "another"), Some(&Value::List(vec![Value::Bool(true), Value::Null])));
    assert_eq!(keys(&back), vec!["token", "x-vendor-flag", "another"]);
}

#[test]
fn unknown_entries_kept_through_whole_document() {
    let doc = map(vec![
        ("apiVersion", text("v1")),
        ("kind", text("Config")),
        ("users", Value::List(vec![map(vec![
            ("name", text("u")),
            ("user", map(vec![("exec", map(vec![
                ("apiVersion", text("client.authentication.k8s.io/v1")),
                ("command", text("aws")),
                ("args", Value::List(vec![text("eks"), text("get-token")])),
                ("newProviderKey", text("kept")),
            ]))])),
        ])])),
        ("vendor-top", Value::Number("1.5".to_string())),
    ]);
    let cfg = Kubeconfig::from_value(&doc).unwrap();
    let exec = cfg.users[0].user.exec_config.as_ref().unwrap();
    assert_eq!(exec.command, "aws");
    assert_eq!(exec.args, vec!["eks", "get-token"]);
    assert_eq!(exec.extra[0].0, "newProviderKey");
    assert_eq!(cfg.extra[0].0, "vendor-top");
    let again = Kubeconfig::from_value(&cfg.to_value()).unwrap();
    assert_eq!(again, cfg);
}

#[test]
fn absent_optionals_are_not_written() {
    let cfg = Kubeconfig::from_value(&map(vec![("apiVersion", text("v1")), ("kind", text("Config"))])).unwrap();
    let written = cfg.to_value();
    assert_eq!(keys(&written), vec!["apiVersion", "kind"]);
    assert!(entry(&written, "preferences").is_none());
    assert!(entry(&written, "extensions").is_none());
    assert!(entry(&written, "current-context").is_none());
}

#[test]
fn null_optionals_read_as_absent() {
    let doc = map(vec![
        ("apiVersion", text("v1")),
        ("kind", text("Config")),
        ("current-context", Value::Null),
        ("clusters", Value::Null),
    ]);
    let cfg = Kubeconfig::from_value(&doc).unwrap();
    assert!(cfg.current_context.is_none());
    assert!(cfg.clusters.is_empty());
}

#[test]
fn empty_preferences_are_kept() {
    let doc = map(vec![("apiVersion", text("v1")), ("kind", text("Config")), ("preferences", map(vec![]))]);
    let cfg = Kubeconfig::from_value(&doc).unwrap();
    assert!(cfg.preferences.is_some());
    assert_eq!(entry(&cfg.to_value(), "preferences"), Some(&map(vec![])));
}

#[test]
fn named_field_takes_precedence_over_extra() {
    let doc = map(vec![("apiVersion", text("v1")), ("kind", text("Config"))]);
    let mut cfg = Kubeconfig::from_value(&doc).unwrap();
    cfg.extra.push(("kind".to_string(), text("Other")));
    cfg.extra.push(("vendor".to_string(), text("x")));
    let written = cfg.to_value();
    assert_eq!(keys(&written), vec!["apiVersion", "kind", "vendor"]);
    assert_eq!(entry(&written, "kind"), Some(&text("Config")));
}

#[test]
fn duplicate_names_pass_through_in_order() {
    let ctx = |n: &str, c: &str| {
        map(vec![("name", text(n)), ("context", map(vec![("cluster", text(c)), ("user", text("u"))]))])
    };
    let doc = map(vec![
        ("apiVersion", text("v1")),
        ("kind", text("Config")),
        ("contexts", Value::List(vec![ctx("a", "one"), ctx("a", "two"), ctx("b", "three")])),
        ("current-context", text("missing")),
    ]);
    let cfg = Kubeconfig::from_value(&doc).unwrap();
    let clusters: Vec<&str> = cfg.contexts.iter().map(|c| c.context.cluster.as_str()).collect();
    assert_eq!(clusters, vec!["one", "two", "three"]);
    assert_eq!(Kubeconfig::from_value(&cfg.to_value()).unwrap(), cfg);
}

#[test]
fn all_user_mechanisms_at_once() {
    let user = map(vec![
        ("token", text("t")),
        ("username", text("admin")),
        ("password", text("secret")),
        ("client-certificate-data", text("Q0VSVA==")),
        ("client-key", text("/keys/k.pem")),
        ("auth-provider", map(vec![("name", text("oidc")), ("config", map(vec![("idp", text("x"))]))])),
        ("impersonate", text("bob")),
        ("impersonate-groups", Value::List(vec![text("dev"), text("ops")])),
        ("impersonate-user-extra", map(vec![("scopes", Value::List(vec![text("a")]))])),
    ]);
    let u = User::from_value(&user).unwrap();
    assert_eq!(u.password.as_deref(), Some("secret"));
    assert_eq!(u.auth_provider.as_ref().unwrap().config, vec![("idp".to_string(), "x".to_string())]);
    assert_eq!(u.impersonate_groups, vec!["dev", "ops"]);
    assert_eq!(u.impersonate_user_extra, vec![("scopes".to_string(), vec!["a".to_string()])]);
    assert_eq!(User::from_value(&u.to_value()).unwrap(), u);
}

#[test]
fn missing_api_version_is_an_error() {
    let r = Kubeconfig::from_value(&map(vec![("kind", text("Config"))]));
    assert_eq!(r.unwrap_err(), DecodeError { field: "apiVersion".to_string() });
}

#[test]
fn wrongly_typed_field_is_an_error() {
    let doc = map(vec![
        ("apiVersion", text("v1")),
        ("kind", text("Config")),
        ("clusters", Value::List(vec![map(vec![
            ("name", text("c")),
            ("cluster", map(vec![("server", text("s")), ("insecure-skip-tls-verify", text("yes"))])),
        ])])),
    ]);
    let r = Kubeconfig::from_value(&doc);
    assert_eq!(r.unwrap_err().field, "insecure-skip-tls-verify");
}

#[test]
fn document_that_is_not_a_mapping_is_an_error() {
    assert!(Kubeconfig::from_value(&Value::List(vec![])).is_err());
    assert!(Kubeconfig::from_value(&text("apiVersion: v1")).is_err());
}

#[test]
fn extension_payload_defaults_to_null() {
    let doc = map(vec![
        ("apiVersion", text("v1")),
        ("kind", text("Config")),
        ("extensions", Value::List(vec![map(vec![("name", text("e"))])])),
    ]);
    let cfg = Kubeconfig::from_value(&doc).unwrap();
    assert_eq!(cfg.extensions[0].extension, Value::Null);
    let written = cfg.to_value();
    let ext = match entry(&written, "extensions") {
        Some(Value::List(items)) => &items[0],
        _ => panic!("extensions not written"),
    };
    assert_eq!(entry(ext, "extension"), Some(&Value::Null));
}

#[test]
fn cluster_proxy_url_uses_format_key() {
    let c = Cluster::from_value(&map(vec![
        ("server", text("https://k")),
        ("proxy-url", text("http://proxy:3128")),
    ]))
    .unwrap();
    assert_eq!(c.proxy_url.as_deref(), Some("http://proxy:3128"));
    assert!(c.extra.is_empty());
    assert_eq!(keys(&c.to_value()), vec!["server", "proxy-url"]);
}
