//! What the client decides around each call to the remote API: the request
//! it sends, the headers that authenticate it, how a response status is
//! read, and the configuration it works from.
use vstd::prelude::*;
use vstd::string::StringExecFns;
use crate::value::{Value};
use crate::codec::{DecodeError, Record};
use crate::api::{Account, DeployProjectRequest, DeployProjectRequestView};
use crate::local::{home_dir, credential_path_in, config_path_in, spec_credential_path, spec_config_path};

verus! {

/// How requests are authenticated.
#[derive(Clone, Debug)]
pub enum Auth {
    /// A bearer token; the client sends no header for it.
    Bearer(String),
    /// An API key, sent in the `X-API-KEY` header.
    ApiKey(String),
}

/// A failure that the API reported.
#[derive(Debug)]
pub enum ApiError {
    Unauthorized,
    Forbidden,
    NotFound,
    ServerError { status: u16, body: String },
}

/// Why a command failed.
#[derive(Debug)]
pub enum CanineError {
    /// No account of the user matches the one asked for.
    NoAccount(String),
    /// No token is configured.
    NoToken,
    /// The one-off pod was not running after the last poll.
    OneOffPodNeverReady,
    /// The API answered with a failure.
    Api(ApiError),
    /// The request address could not be formed.
    UrlJoin(String),
    /// The request could not be sent or its answer received.
    Transport(String),
    /// A response body was not well-formed JSON.
    Json(String),
    /// A response document did not have the expected shape.
    Decode(DecodeError),
    /// A local file could not be written.
    Io(String),
}

/// An HTTP method.
#[derive(Clone, Copy, Debug, PartialEq, Eq, Structural)]
pub enum Method {
    Get,
    Post,
    Put,
}

/// A request to the API: a method, a path under the API's address, and a
/// body document for the methods that send one.
#[derive(Debug)]
pub struct Request {
    pub method: Method,
    pub path: String,
    pub body: Option<Value>,
}

/// `prefix` followed by `id`.
fn path_of(prefix: &str, id: &str) -> (r: String)
    ensures
        r@ == prefix@ + id@,
{
    let mut s = prefix.to_owned();
    s.append(id);
    s
}

/// `prefix`, `id` and `suffix`, in that order.
fn path_around(prefix: &str, id: &str, suffix: &str) -> (r: String)
    ensures
        r@ == prefix@ + id@ + suffix@,
{
    let mut s = prefix.to_owned();
    s.append(id);
    s.append(suffix);
    s
}

fn get(path: String) -> (r: Request)
    ensures
        r.method == Method::Get,
        r.path@ == path@,
        r.body is None,
{
    Request { method: Method::Get, path, body: None }
}

/// The current user.
pub fn me() -> (r: Request)
    ensures
        r.method == Method::Get && r.path@ == "/api/v1/me"@ && r.body is None,
{
    get("/api/v1/me".to_owned())
}

/// The projects of the account.
pub fn get_projects() -> (r: Request)
    ensures
        r.method == Method::Get && r.path@ == "/api/v1/projects"@ && r.body is None,
{
    get("/api/v1/projects".to_owned())
}

/// The clusters of the account.
pub fn get_clusters() -> (r: Request)
    ensures
        r.method == Method::Get && r.path@ == "/api/v1/clusters"@ && r.body is None,
{
    get("/api/v1/clusters".to_owned())
}

/// Builds, of one project or of all.
pub fn get_builds(project_id: &Option<String>) -> (r: Request)
    ensures
        r.method == Method::Get,
        r.body is None,
        match project_id {
            Some(p) => r.path@ == "/api/v1/builds?project_id="@ + p@,
            None => r.path@ == "/api/v1/builds"@,
        },
{
    match project_id {
        Some(p) => get(path_of("/api/v1/builds?project_id=", p)),
        None => get("/api/v1/builds".to_owned()),
    }
}

/// Stops a build.
pub fn kill_build(build_id: &str) -> (r: Request)
    ensures
        r.method == Method::Put && r.path@ == "/api/v1/builds/"@ + build_id@ + "/kill"@
            && r.body is None,
{
    Request { method: Method::Put, path: path_around("/api/v1/builds/", build_id, "/kill"), body: None }
}

/// A project.
pub fn get_project(project_id: &str) -> (r: Request)
    ensures
        r.method == Method::Get && r.path@ == "/api/v1/projects/"@ + project_id@ && r.body is None,
{
    get(path_of("/api/v1/projects/", project_id))
}

/// The processes of a project.
pub fn get_processes(project_id: &str) -> (r: Request)
    ensures
        r.method == Method::Get && r.path@ == "/api/v1/projects/"@ + project_id@ + "/processes"@
            && r.body is None,
{
    get(path_around("/api/v1/projects/", project_id, "/processes"))
}

/// Starts a one-off pod for a project.
pub fn create_one_off_pod(project_id: &str) -> (r: Request)
    ensures
        r.method == Method::Post && r.path@ == "/api/v1/projects/"@ + project_id@ + "/processes"@
            && r.body is None,
{
    Request {
        method: Method::Post,
        path: path_around("/api/v1/projects/", project_id, "/processes"),
        body: None,
    }
}

/// A pod of a project.
pub fn get_pod(project_id: &str, pod_id: &str) -> (r: Request)
    ensures
        r.method == Method::Get && r.path@ == "/api/v1/projects/"@ + project_id@ + "/processes/"@
            + pod_id@ && r.body is None,
{
    let mut s = path_around("/api/v1/projects/", project_id, "/processes/");
    s.append(pod_id);
    get(s)
}

/// Deploys a project, building it first unless `skip_build`.
pub fn deploy_project(project_id: &str, skip_build: bool) -> (r: Request)
    ensures
        r.method == Method::Post,
        r.path@ == "/api/v1/projects/"@ + project_id@ + "/deploy"@,
        r.body matches Some(b) && b@ == DeployProjectRequest::write(
            DeployProjectRequestView { skip_build },
        ),
{
    let body = DeployProjectRequest { skip_build };
    Request {
        method: Method::Post,
        path: path_around("/api/v1/projects/", project_id, "/deploy"),
        body: Some(body.to_value()),
    }
}

/// The kubeconfig document of a cluster.
pub fn download_kubeconfig_file(cluster_id: &str) -> (r: Request)
    ensures
        r.method == Method::Get && r.path@ == "/api/v1/clusters/"@ + cluster_id@
            + "/download_kubeconfig"@ && r.body is None,
{
    get(path_around("/api/v1/clusters/", cluster_id, "/download_kubeconfig"))
}

/// The add-ons of the account.
pub fn get_add_ons() -> (r: Request)
    ensures
        r.method == Method::Get && r.path@ == "/api/v1/add_ons"@ && r.body is None,
{
    get("/api/v1/add_ons".to_owned())
}

/// Restarts an add-on.
pub fn restart_add_on(add_on_id: &str) -> (r: Request)
    ensures
        r.method == Method::Put && r.path@ == "/api/v1/add_ons/"@ + add_on_id@ + "/restart"@
            && r.body is None,
{
    Request {
        method: Method::Put,
        path: path_around("/api/v1/add_ons/", add_on_id, "/restart"),
        body: None,
    }
}

pub open spec fn headers_view(h: Vec<(String, String)>) -> Seq<(Seq<char>, Seq<char>)> {
    Seq::new(h.len() as nat, |i: int| (h[i].0@, h[i].1@))
}

/// The headers every request carries: the account it acts for, if one is
/// chosen, then the API key, if that is how it authenticates.
pub open spec fn spec_headers(auth: Auth, account: Option<String>) -> Seq<(Seq<char>, Seq<char>)> {
    let a = match account {
        Some(id) => seq![("X-ACCOUNT-ID"@, id@)],
        None => Seq::empty(),
    };
    let k = match auth {
        Auth::ApiKey(token) => seq![("X-API-KEY"@, token@)],
        Auth::Bearer(_) => Seq::empty(),
    };
    a + k
}

/// The headers for a request.
pub fn request_headers(auth: &Auth, account: &Option<String>) -> (r: Vec<(String, String)>)
    ensures
        headers_view(r) == spec_headers(*auth, *account),
{
    let mut h: Vec<(String, String)> = Vec::new();
    if let Some(id) = account {
        h.push(("X-ACCOUNT-ID".to_owned(), id.clone()));
    }
    let ghost after_account = headers_view(h);
    if let Auth::ApiKey(token) = auth {
        h.push(("X-API-KEY".to_owned(), token.clone()));
        assert(headers_view(h) =~= after_account.push(("X-API-KEY"@, token@)));
    }
    assert(headers_view(h) =~= spec_headers(*auth, *account));
    h
}

/// Whether a response status means success.
pub open spec fn is_success(status: u16) -> bool {
    200 <= status <= 299
}

/// Reads a response's status: a success hands the body on; any other status
/// is a server error that keeps the status and the body unchanged.
pub fn check_status(status: u16, body: String) -> (r: Result<String, ApiError>)
    ensures
        is_success(status) ==> (r matches Ok(b) && b@ == body@),
        !is_success(status) ==> (r matches Err(ApiError::ServerError { status: s, body: b }) && s
            == status && b@ == body@),
{
    if 200 <= status && status <= 299 {
        Ok(body)
    } else {
        Err(ApiError::ServerError { status, body })
    }
}

/// Reads a response document as `T`.
pub fn read_response<T: Record>(v: &Value) -> (r: Result<T, CanineError>)
    ensures
        match r {
            Ok(x) => T::read(v@) == Some(x@),
            Err(e) => T::read(v@) is None && e is Decode,
        },
{
    match T::from_value(v) {
        Ok(x) => Ok(x),
        Err(e) => Err(CanineError::Decode(e)),
    }
}

/// Whether `t` occurs in `s`.
pub open spec fn occurs_in(t: Seq<char>, s: Seq<char>) -> bool {
    exists|j: int| 0 <= j && j + t.len() <= s.len() && #[trigger] s.subrange(j, j + t.len()) == t
}

/// Whether `t` occurs in `s` at position `j`.
fn occurs_at(s: &str, t: &str, j: usize) -> (r: bool)
    requires
        j + t@.len() <= s@.len(),
    ensures
        r == (s@.subrange(j as int, j + t@.len()) == t@),
{
    let len = s.unicode_len();
    let n = t.unicode_len();
    let mut i: usize = 0;
    while i < n
        invariant
            len == s@.len(),
            n == t@.len(),
            j + n <= s@.len(),
            i <= n,
            forall|k: int| 0 <= k < i ==> s@[j + k] == t@[k],
        decreases n - i,
    {
        if s.get_char(j + i) != t.get_char(i) {
            assert(s@.subrange(j as int, j + t@.len())[i as int] != t@[i as int]);
            return false;
        }
        i = i + 1;
    }
    assert(s@.subrange(j as int, j + t@.len()) =~= t@);
    true
}

/// Whether `t` occurs in `s`.
pub fn contains_text(s: &str, t: &str) -> (r: bool)
    ensures
        r == occurs_in(t@, s@),
{
    let n = s.unicode_len();
    let m = t.unicode_len();
    if m > n {
        return false;
    }
    let limit = n - m;
    let mut j: usize = 0;
    while j < limit
        invariant
            n == s@.len(),
            m == t@.len(),
            limit == n - m,
            j <= limit,
            forall|k: int| 0 <= k < j ==> #[trigger] s@.subrange(k, k + m) != t@,
        decreases limit - j,
    {
        if occurs_at(s, t, j) {
            return true;
        }
        j = j + 1;
    }
    occurs_at(s, t, limit)
}

/// Whether the user belongs to an account whose short name contains `wanted`.
pub fn has_account(accounts: &Vec<Account>, wanted: &str) -> (r: bool)
    ensures
        r == exists|i: int| 0 <= i < accounts.len() && occurs_in(wanted@, #[trigger] accounts[i].slug@),
{
    let mut i: usize = 0;
    while i < accounts.len()
        invariant
            i <= accounts.len(),
            forall|k: int| 0 <= k < i ==> !occurs_in(wanted@, #[trigger] accounts[k].slug@),
        decreases accounts.len() - i,
    {
        if contains_text(accounts[i].slug.as_str(), wanted) {
            return true;
        }
        i = i + 1;
    }
    false
}

/// The address the client talks to when none is configured.
pub const DEFAULT_HOST: &'static str = "https://canine.sh";

/// The stored settings: the API's address, the token and the account.
#[derive(Debug)]
pub struct CanineConfig {
    pub host: Option<String>,
    pub token: Option<String>,
    pub account: Option<String>,
}

impl CanineConfig {
    /// The kubeconfig file the client writes; `None` when the home
    /// directory cannot be determined.
    pub fn credential_path() -> (r: Option<String>)
        ensures
            r matches Some(p) ==> exists|h: Seq<char>| p@ == spec_credential_path(h),
    {
        match home_dir() {
            Some(h) => Some(credential_path_in(h.as_str())),
            None => None,
        }
    }

    /// The settings file; `None` when the home directory cannot be
    /// determined.
    pub fn config_path() -> (r: Option<String>)
        ensures
            r matches Some(p) ==> exists|h: Seq<char>| p@ == spec_config_path(h),
    {
        match home_dir() {
            Some(h) => Some(config_path_in(h.as_str())),
            None => None,
        }
    }

    /// The API's address: the configured one, or the default.
    pub fn host_or_default(&self) -> (r: String)
        ensures
            match self.host {
                Some(h) => r@ == h@,
                None => r@ == DEFAULT_HOST@,
            },
    {
        match &self.host {
            Some(h) => h.clone(),
            None => DEFAULT_HOST.to_owned(),
        }
    }

    /// The address and authentication to build a client from; fails when no
    /// token is configured.
    pub fn credentials(&self) -> (r: Result<(String, Auth), CanineError>)
        ensures
            match r {
                Ok((host, auth)) => self.token matches Some(t) && auth matches Auth::ApiKey(k) && k@
                    == t@ && host@ == (match self.host {
                    Some(h) => h@,
                    None => DEFAULT_HOST@,
                }),
                Err(e) => self.token is None && e is NoToken,
            },
    {
        match &self.token {
            Some(t) => Ok((self.host_or_default(), Auth::ApiKey(t.clone()))),
            None => Err(CanineError::NoToken),
        }
    }

    /// The same settings acting for another account.
    pub fn change_account(&self, account: &str) -> (r: CanineConfig)
        ensures
            r.host == self.host,
            r.token == self.token,
            r.account matches Some(a) && a@ == account@,
    {
        CanineConfig {
            host: self.host.clone(),
            token: self.token.clone(),
            account: Some(account.to_owned()),
        }
    }
}

} // verus!
