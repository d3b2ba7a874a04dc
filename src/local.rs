//! Where the client keeps its files, and the checks that the external tools
//! it hands over to are installed.
use vstd::prelude::*;
use vstd::string::StringExecFns;
use crate::value::{Value, Tree, Entry, lookup};
use crate::codec::{mapping_view, items_view, find, lemma_mapping_view, lemma_list_view};

verus! {

/// The environment variable that tells `kubectl` and `telepresence` which
/// kubeconfig file to use.
pub const KUBECONFIG_VAR: &'static str = "KUBECONFIG";

/// Relies on dirs::home_dir: the current user's home directory, if it can
/// be determined. It depends on the environment, so nothing is promised of
/// it; a path that is not valid Unicode is converted lossily.
#[verifier::external_body]
pub(crate) fn home_dir() -> (r: Option<String>) {
    dirs::home_dir().map(|p| p.to_string_lossy().into_owned())
}

/// `rel` under the directory `dir`.
pub open spec fn spec_join(dir: Seq<char>, rel: Seq<char>) -> Seq<char> {
    if dir.len() == 0 {
        rel
    } else if dir.last() == '/' {
        dir + rel
    } else {
        dir + "/"@ + rel
    }
}

/// `rel` under the directory `dir`.
pub fn join_path(dir: &str, rel: &str) -> (r: String)
    ensures
        r@ == spec_join(dir@, rel@),
{
    let n = dir.unicode_len();
    if n == 0 {
        return rel.to_owned();
    }
    let mut s = dir.to_owned();
    if dir.get_char(n - 1) != '/' {
        s.append("/");
    }
    s.append(rel);
    s
}

pub open spec fn spec_credential_path(home: Seq<char>) -> Seq<char> {
    spec_join(home, ".k9/kubeconfig.yaml"@)
}

pub open spec fn spec_config_path(home: Seq<char>) -> Seq<char> {
    spec_join(home, ".k9/canine.yaml"@)
}

pub open spec fn spec_local_dir(home: Seq<char>) -> Seq<char> {
    spec_join(home, ".k9/local"@)
}

pub open spec fn spec_docker_compose_path(home: Seq<char>) -> Seq<char> {
    spec_join(spec_local_dir(home), "docker-compose.yml"@)
}

/// The kubeconfig file the client writes, under the home directory `home`.
pub fn credential_path_in(home: &str) -> (r: String)
    ensures
        r@ == spec_credential_path(home@),
{
    join_path(home, ".k9/kubeconfig.yaml")
}

/// The client's settings file, under the home directory `home`.
pub fn config_path_in(home: &str) -> (r: String)
    ensures
        r@ == spec_config_path(home@),
{
    join_path(home, ".k9/canine.yaml")
}

/// The directory of the local environment, under the home directory `home`.
pub fn local_dir_in(home: &str) -> (r: String)
    ensures
        r@ == spec_local_dir(home@),
{
    join_path(home, ".k9/local")
}

/// The local environment's Compose file, under the home directory `home`.
pub fn docker_compose_path_in(home: &str) -> (r: String)
    ensures
        r@ == spec_docker_compose_path(home@),
{
    let dir = local_dir_in(home);
    join_path(dir.as_str(), "docker-compose.yml")
}

/// The directory of the local environment; `None` when the home directory
/// cannot be determined.
pub fn local_dir() -> (r: Option<String>)
    ensures
        r matches Some(p) ==> exists|h: Seq<char>| p@ == spec_local_dir(h),
{
    match home_dir() {
        Some(h) => Some(local_dir_in(h.as_str())),
        None => None,
    }
}

/// The local environment's Compose file; `None` when the home directory
/// cannot be determined.
pub fn docker_compose_path() -> (r: Option<String>)
    ensures
        r matches Some(p) ==> exists|h: Seq<char>| p@ == spec_docker_compose_path(h),
{
    match home_dir() {
        Some(h) => Some(docker_compose_path_in(h.as_str())),
        None => None,
    }
}

/// What running a tool's version command gave.
#[derive(Debug)]
pub enum ToolRun {
    /// No such program.
    Missing,
    /// The program is there but could not be started; why.
    Unstartable(String),
    /// It ran: whether it exited successfully, and what it wrote to stderr.
    Exited { success: bool, stderr: String },
}

/// Why `kubectl` cannot be used.
#[derive(Debug)]
pub enum KubectlError {
    NotFound,
    NotExecutable(String),
    FailedToRun(String),
}

/// Why `telepresence` cannot be used.
#[derive(Debug)]
pub enum TelepresenceError {
    NotFound,
    NotExecutable(String),
    FailedToRun(String),
}

/// Why Docker Compose cannot be used.
#[derive(Debug)]
pub enum DockerComposeError {
    NotFound,
    NotExecutable(String),
    FailedToRun(String),
}

/// Whether `kubectl` can be used, from what running `kubectl version
/// --client` gave: a missing program and one that ran and failed are told
/// apart.
pub fn ensure_kubectl(run: ToolRun) -> (r: Result<(), KubectlError>)
    ensures
        match run {
            ToolRun::Missing => r matches Err(KubectlError::NotFound),
            ToolRun::Unstartable(why) => r matches Err(KubectlError::NotExecutable(w)) && w == why,
            ToolRun::Exited { success, stderr } => if success {
                r is Ok
            } else {
                r matches Err(KubectlError::FailedToRun(e)) && e == stderr
            },
        },
{
    match run {
        ToolRun::Missing => Err(KubectlError::NotFound),
        ToolRun::Unstartable(why) => Err(KubectlError::NotExecutable(why)),
        ToolRun::Exited { success, stderr } => if success {
            Ok(())
        } else {
            Err(KubectlError::FailedToRun(stderr))
        },
    }
}

/// Whether `telepresence` can be used, from what running `telepresence
/// version` gave.
pub fn gate_telepresence(run: ToolRun) -> (r: Result<(), TelepresenceError>)
    ensures
        match run {
            ToolRun::Missing => r matches Err(TelepresenceError::NotFound),
            ToolRun::Unstartable(why) => r matches Err(TelepresenceError::NotExecutable(w)) && w
                == why,
            ToolRun::Exited { success, stderr } => if success {
                r is Ok
            } else {
                r matches Err(TelepresenceError::FailedToRun(e)) && e == stderr
            },
        },
{
    match run {
        ToolRun::Missing => Err(TelepresenceError::NotFound),
        ToolRun::Unstartable(why) => Err(TelepresenceError::NotExecutable(why)),
        ToolRun::Exited { success, stderr } => if success {
            Ok(())
        } else {
            Err(TelepresenceError::FailedToRun(stderr))
        },
    }
}

/// Whether Docker Compose can be used, from what running `docker compose
/// version` gave.
pub fn check_docker_compose(run: ToolRun) -> (r: Result<(), DockerComposeError>)
    ensures
        match run {
            ToolRun::Missing => r matches Err(DockerComposeError::NotFound),
            ToolRun::Unstartable(why) => r matches Err(DockerComposeError::NotExecutable(w)) && w
                == why,
            ToolRun::Exited { success, stderr } => if success {
                r is Ok
            } else {
                r matches Err(DockerComposeError::FailedToRun(e)) && e == stderr
            },
        },
{
    match run {
        ToolRun::Missing => Err(DockerComposeError::NotFound),
        ToolRun::Unstartable(why) => Err(DockerComposeError::NotExecutable(why)),
        ToolRun::Exited { success, stderr } => if success {
            Ok(())
        } else {
            Err(DockerComposeError::FailedToRun(stderr))
        },
    }
}

/// A service of the local environment, as `docker compose ps` describes it.
#[derive(Debug, PartialEq)]
pub struct ServiceStatus {
    pub name: String,
    pub state: String,
    pub health: String,
    /// The host ports it is published on.
    pub ports: Vec<u64>,
}

/// The text under `k`, or `default` when there is none.
pub open spec fn text_or(m: Seq<Entry>, k: Seq<char>, default: Seq<char>) -> Seq<char> {
    match lookup(m, k) {
        Some(Tree::Text(s)) => s,
        _ => default,
    }
}

/// The host port a publisher entry names, if it names one above zero.
pub open spec fn published_port(t: Tree) -> Option<u64> {
    match t {
        Tree::Mapping(m) => match lookup(m, "PublishedPort"@) {
            Some(Tree::Int(i)) => if i > 0 {
                Some(i as u64)
            } else {
                None
            },
            _ => None,
        },
        _ => None,
    }
}

/// The host ports that `items` name, in order.
pub open spec fn published_ports(items: Seq<Tree>) -> Seq<u64>
    decreases items.len(),
{
    if items.len() == 0 {
        Seq::empty()
    } else {
        match published_port(items.last()) {
            Some(p) => published_ports(items.drop_last()).push(p),
            None => published_ports(items.drop_last()),
        }
    }
}

/// The host ports of a service description.
pub open spec fn ports_of(m: Seq<Entry>) -> Seq<u64> {
    match lookup(m, "Publishers"@) {
        Some(Tree::List(items)) => published_ports(items),
        _ => Seq::empty(),
    }
}

fn text_or_default(m: &Vec<(String, Value)>, key: &str, default: &str) -> (r: String)
    ensures
        r@ == text_or(mapping_view(m), key@, default@),
{
    match find(m, key) {
        Some(Value::Text(s)) => s.clone(),
        _ => default.to_owned(),
    }
}

fn ports_in(items: &Vec<Value>) -> (r: Vec<u64>)
    ensures
        r@ == published_ports(items_view(items)),
{
    let ghost ts = items_view(items);
    let mut out: Vec<u64> = Vec::new();
    let mut i: usize = 0;
    while i < items.len()
        invariant
            i <= items.len(),
            ts == items_view(items),
            out@ == published_ports(ts.take(i as int)),
        decreases items.len() - i,
    {
        proof {
            assert(ts.take(i as int + 1).drop_last() =~= ts.take(i as int));
            assert(ts.take(i as int + 1).last() == items[i as int]@);
        }
        if let Value::Mapping(m) = &items[i] {
            proof {
                lemma_mapping_view(m);
            }
            if let Some(Value::Int(p)) = find(m, "PublishedPort") {
                if *p > 0 {
                    out.push(*p as u64);
                }
            }
        }
        i = i + 1;
    }
    assert(ts.take(i as int) =~= ts);
    out
}

/// Reads one service description of `docker compose ps --format json`. A
/// missing name or state reads as `unknown`, a missing health as empty.
pub fn service_status(v: &Value) -> (r: ServiceStatus)
    ensures
        match v@ {
            Tree::Mapping(m) => {
                &&& r.name@ == text_or(m, "Service"@, "unknown"@)
                &&& r.state@ == text_or(m, "State"@, "unknown"@)
                &&& r.health@ == text_or(m, "Health"@, ""@)
                &&& r.ports@ == ports_of(m)
            },
            _ => r.name@ == "unknown"@ && r.state@ == "unknown"@ && r.health@ == ""@ && r.ports@.len()
                == 0,
        },
{
    match v {
        Value::Mapping(m) => {
            proof {
                lemma_mapping_view(m);
            }
            let ports = match find(m, "Publishers") {
                Some(Value::List(items)) => {
                    proof {
                        lemma_list_view(items);
                    }
                    ports_in(items)
                },
                _ => Vec::new(),
            };
            ServiceStatus {
                name: text_or_default(m, "Service", "unknown"),
                state: text_or_default(m, "State", "unknown"),
                health: text_or_default(m, "Health", ""),
                ports,
            }
        },
        _ => ServiceStatus {
            name: "unknown".to_owned(),
            state: "unknown".to_owned(),
            health: "".to_owned(),
            ports: Vec::new(),
        },
    }
}

/// A service named `web` that is published on a port.
pub open spec fn is_published_web(s: ServiceStatus) -> bool {
    s.name@ == "web"@ && s.ports@.len() > 0
}

/// The port the web interface is published on: the first port of the first
/// published service named `web`.
pub fn web_port(services: &Vec<ServiceStatus>) -> (r: Option<u64>)
    ensures
        match r {
            Some(p) => exists|i: int|
                0 <= i < services@.len() && is_published_web(#[trigger] services@[i]) && p
                    == services@[i].ports@[0] && forall|j: int|
                    0 <= j < i ==> !is_published_web(#[trigger] services@[j]),
            None => forall|i: int| 0 <= i < services@.len() ==> !is_published_web(#[trigger] services@[i]),
        },
{
    let web = "web".to_owned();
    let mut i: usize = 0;
    while i < services.len()
        invariant
            i <= services.len(),
            web@ == "web"@,
            forall|j: int| 0 <= j < i ==> !is_published_web(#[trigger] services@[j]),
        decreases services.len() - i,
    {
        if services[i].name == web && services[i].ports.len() > 0 {
            assert(is_published_web(services@[i as int]));
            return Some(services[i].ports[0]);
        }
        i = i + 1;
    }
    None
}

} // verus!
