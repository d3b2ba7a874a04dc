//! The remote API's data model and how it is read from response documents
//! and written to request documents. Entries that a record does not name are
//! ignored when reading.
use vstd::prelude::*;
use crate::value::{Value, Tree, Entry, rest, present, slot_keys, keys_view, lemma_record_read_back};
use crate::codec::{
    DecodeError, Record, Named, mapping_view, records_view, reader, writer, all_wf, read_text,
    read_list, read_record, read_bool, read_i32, read_named, write_list, lemma_mapping_view,
    lemma_records_read_back, lemma_records_list_wf, lemma_record_entry_read_back,
    lemma_record_entry_wf, lemma_named_read_back, get_text, get_records, get_record, get_bool,
    get_i32, get_named, records_value, name_value, put_slot, field_error,
};
use crate::kubeconfig::{Kubeconfig, KubeconfigView};

verus! {

/// The phase of a pod. A name the API may add later reads as `Unknown`.
#[derive(Clone, Copy, Debug, PartialEq, Eq, Structural)]
pub enum ProcessStatus {
    /// Accepted; containers not running yet.
    Pending,
    /// Bound to a node, containers running.
    Running,
    /// All containers ended successfully.
    Succeeded,
    /// All containers ended, one at least in failure.
    Failed,
    /// The state could not be obtained, or is not one of the above.
    Unknown,
}

pub proof fn lemma_process_status_names()
    ensures
        "Pending"@.len() == 7 && "Pending"@[0] == 'P' && "Pending"@[1] == 'e',
        "Running"@.len() == 7 && "Running"@[0] == 'R' && "Running"@[1] == 'u',
        "Succeeded"@.len() == 9 && "Succeeded"@[0] == 'S' && "Succeeded"@[1] == 'u',
        "Failed"@.len() == 6 && "Failed"@[0] == 'F' && "Failed"@[1] == 'a',
        "Unknown"@.len() == 7 && "Unknown"@[0] == 'U' && "Unknown"@[1] == 'n',
{
    reveal_strlit("Pending");
    reveal_strlit("Running");
    reveal_strlit("Succeeded");
    reveal_strlit("Failed");
    reveal_strlit("Unknown");
}

impl Named for ProcessStatus {
    open spec fn spec_from_name(s: Seq<char>) -> Option<ProcessStatus> {
        if s == "Pending"@ {
            Some(ProcessStatus::Pending)
        } else if s == "Running"@ {
            Some(ProcessStatus::Running)
        } else if s == "Succeeded"@ {
            Some(ProcessStatus::Succeeded)
        } else if s == "Failed"@ {
            Some(ProcessStatus::Failed)
        } else if s == "Unknown"@ {
            Some(ProcessStatus::Unknown)
        } else {
            Some(ProcessStatus::Unknown)
        }
    }

    open spec fn spec_name(x: ProcessStatus) -> Seq<char> {
        match x {
            ProcessStatus::Pending => "Pending"@,
            ProcessStatus::Running => "Running"@,
            ProcessStatus::Succeeded => "Succeeded"@,
            ProcessStatus::Failed => "Failed"@,
            ProcessStatus::Unknown => "Unknown"@,
        }
    }

    proof fn lemma_name_read_back(x: ProcessStatus) {
        lemma_process_status_names();
    }

    fn from_name(s: &String) -> (r: Option<ProcessStatus>) {
        proof {
            lemma_process_status_names();
        }
        if *s == "Pending".to_owned() {
            return Some(ProcessStatus::Pending);
        }
        if *s == "Running".to_owned() {
            return Some(ProcessStatus::Running);
        }
        if *s == "Succeeded".to_owned() {
            return Some(ProcessStatus::Succeeded);
        }
        if *s == "Failed".to_owned() {
            return Some(ProcessStatus::Failed);
        }
        if *s == "Unknown".to_owned() {
            return Some(ProcessStatus::Unknown);
        }
        Some(ProcessStatus::Unknown)
    }

    fn name(&self) -> (r: &'static str) {
        match self {
            ProcessStatus::Pending => "Pending",
            ProcessStatus::Running => "Running",
            ProcessStatus::Succeeded => "Succeeded",
            ProcessStatus::Failed => "Failed",
            ProcessStatus::Unknown => "Unknown",
        }
    }
}

/// The state of a project.
#[derive(Clone, Copy, Debug, PartialEq, Eq, Structural)]
pub enum ProjectStatus {
    /// Being created.
    Creating,
    /// Deployed.
    Deployed,
    /// Being destroyed.
    Destroying,
}

pub proof fn lemma_project_status_names()
    ensures
        "creating"@.len() == 8 && "creating"@[0] == 'c' && "creating"@[1] == 'r',
        "deployed"@.len() == 8 && "deployed"@[0] == 'd' && "deployed"@[1] == 'e',
        "destroying"@.len() == 10 && "destroying"@[0] == 'd' && "destroying"@[1] == 'e',
{
    reveal_strlit("creating");
    reveal_strlit("deployed");
    reveal_strlit("destroying");
}

impl Named for ProjectStatus {
    open spec fn spec_from_name(s: Seq<char>) -> Option<ProjectStatus> {
        if s == "creating"@ {
            Some(ProjectStatus::Creating)
        } else if s == "deployed"@ {
            Some(ProjectStatus::Deployed)
        } else if s == "destroying"@ {
            Some(ProjectStatus::Destroying)
        } else {
            None
        }
    }

    open spec fn spec_name(x: ProjectStatus) -> Seq<char> {
        match x {
            ProjectStatus::Creating => "creating"@,
            ProjectStatus::Deployed => "deployed"@,
            ProjectStatus::Destroying => "destroying"@,
        }
    }

    proof fn lemma_name_read_back(x: ProjectStatus) {
        lemma_project_status_names();
    }

    fn from_name(s: &String) -> (r: Option<ProjectStatus>) {
        proof {
            lemma_project_status_names();
        }
        if *s == "creating".to_owned() {
            return Some(ProjectStatus::Creating);
        }
        if *s == "deployed".to_owned() {
            return Some(ProjectStatus::Deployed);
        }
        if *s == "destroying".to_owned() {
            return Some(ProjectStatus::Destroying);
        }
        None
    }

    fn name(&self) -> (r: &'static str) {
        match self {
            ProjectStatus::Creating => "creating",
            ProjectStatus::Deployed => "deployed",
            ProjectStatus::Destroying => "destroying",
        }
    }
}

/// The state of a cluster.
#[derive(Clone, Copy, Debug, PartialEq, Eq, Structural)]
pub enum ClusterStatus {
    /// Being initialized.
    Initializing,
    /// Being installed.
    Installing,
    /// Running.
    Running,
    /// Failed.
    Failed,
    /// Being destroyed.
    Destroying,
    /// Deleted.
    Deleted,
}

pub proof fn lemma_cluster_status_names()
    ensures
        "initializing"@.len() == 12 && "initializing"@[0] == 'i' && "initializing"@[1] == 'n',
        "installing"@.len() == 10 && "installing"@[0] == 'i' && "installing"@[1] == 'n',
        "running"@.len() == 7 && "running"@[0] == 'r' && "running"@[1] == 'u',
        "failed"@.len() == 6 && "failed"@[0] == 'f' && "failed"@[1] == 'a',
        "destroying"@.len() == 10 && "destroying"@[0] == 'd' && "destroying"@[1] == 'e',
        "deleted"@.len() == 7 && "deleted"@[0] == 'd' && "deleted"@[1] == 'e',
{
    reveal_strlit("initializing");
    reveal_strlit("installing");
    reveal_strlit("running");
    reveal_strlit("failed");
    reveal_strlit("destroying");
    reveal_strlit("deleted");
}

impl Named for ClusterStatus {
    open spec fn spec_from_name(s: Seq<char>) -> Option<ClusterStatus> {
        if s == "initializing"@ {
            Some(ClusterStatus::Initializing)
        } else if s == "installing"@ {
            Some(ClusterStatus::Installing)
        } else if s == "running"@ {
            Some(ClusterStatus::Running)
        } else if s == "failed"@ {
            Some(ClusterStatus::Failed)
        } else if s == "destroying"@ {
            Some(ClusterStatus::Destroying)
        } else if s == "deleted"@ {
            Some(ClusterStatus::Deleted)
        } else {
            None
        }
    }

    open spec fn spec_name(x: ClusterStatus) -> Seq<char> {
        match x {
            ClusterStatus::Initializing => "initializing"@,
            ClusterStatus::Installing => "installing"@,
            ClusterStatus::Running => "running"@,
            ClusterStatus::Failed => "failed"@,
            ClusterStatus::Destroying => "destroying"@,
            ClusterStatus::Deleted => "deleted"@,
        }
    }

    proof fn lemma_name_read_back(x: ClusterStatus) {
        lemma_cluster_status_names();
    }

    fn from_name(s: &String) -> (r: Option<ClusterStatus>) {
        proof {
            lemma_cluster_status_names();
        }
        if *s == "initializing".to_owned() {
            return Some(ClusterStatus::Initializing);
        }
        if *s == "installing".to_owned() {
            return Some(ClusterStatus::Installing);
        }
        if *s == "running".to_owned() {
            return Some(ClusterStatus::Running);
        }
        if *s == "failed".to_owned() {
            return Some(ClusterStatus::Failed);
        }
        if *s == "destroying".to_owned() {
            return Some(ClusterStatus::Destroying);
        }
        if *s == "deleted".to_owned() {
            return Some(ClusterStatus::Deleted);
        }
        None
    }

    fn name(&self) -> (r: &'static str) {
        match self {
            ClusterStatus::Initializing => "initializing",
            ClusterStatus::Installing => "installing",
            ClusterStatus::Running => "running",
            ClusterStatus::Failed => "failed",
            ClusterStatus::Destroying => "destroying",
            ClusterStatus::Deleted => "deleted",
        }
    }
}

/// The Kubernetes distribution of a cluster.
#[derive(Clone, Copy, Debug, PartialEq, Eq, Structural)]
pub enum ClusterType {
    /// Kubernetes.
    K8s,
    /// K3s.
    K3s,
}

pub proof fn lemma_cluster_type_names()
    ensures
        "k8s"@.len() == 3 && "k8s"@[0] == 'k' && "k8s"@[1] == '8',
        "k3s"@.len() == 3 && "k3s"@[0] == 'k' && "k3s"@[1] == '3',
{
    reveal_strlit("k8s");
    reveal_strlit("k3s");
}

impl Named for ClusterType {
    open spec fn spec_from_name(s: Seq<char>) -> Option<ClusterType> {
        if s == "k8s"@ {
            Some(ClusterType::K8s)
        } else if s == "k3s"@ {
            Some(ClusterType::K3s)
        } else {
            None
        }
    }

    open spec fn spec_name(x: ClusterType) -> Seq<char> {
        match x {
            ClusterType::K8s => "k8s"@,
            ClusterType::K3s => "k3s"@,
        }
    }

    proof fn lemma_name_read_back(x: ClusterType) {
        lemma_cluster_type_names();
    }

    fn from_name(s: &String) -> (r: Option<ClusterType>) {
        proof {
            lemma_cluster_type_names();
        }
        if *s == "k8s".to_owned() {
            return Some(ClusterType::K8s);
        }
        if *s == "k3s".to_owned() {
            return Some(ClusterType::K3s);
        }
        None
    }

    fn name(&self) -> (r: &'static str) {
        match self {
            ClusterType::K8s => "k8s",
            ClusterType::K3s => "k3s",
        }
    }
}

/// The state of an add-on.
#[derive(Clone, Copy, Debug, PartialEq, Eq, Structural)]
pub enum AddOnStatus {
    /// Being installed.
    Installing,
    /// Installed.
    Installed,
    /// Being uninstalled.
    Uninstalling,
    /// Uninstalled.
    Uninstalled,
    /// Failed.
    Failed,
    /// Being updated.
    Updating,
}

pub proof fn lemma_add_on_status_names()
    ensures
        "installing"@.len() == 10 && "installing"@[0] == 'i' && "installing"@[1] == 'n',
        "installed"@.len() == 9 && "installed"@[0] == 'i' && "installed"@[1] == 'n',
        "uninstalling"@.len() == 12 && "uninstalling"@[0] == 'u' && "uninstalling"@[1] == 'n',
        "uninstalled"@.len() == 11 && "uninstalled"@[0] == 'u' && "uninstalled"@[1] == 'n',
        "failed"@.len() == 6 && "failed"@[0] == 'f' && "failed"@[1] == 'a',
        "updating"@.len() == 8 && "updating"@[0] == 'u' && "updating"@[1] == 'p',
{
    reveal_strlit("installing");
    reveal_strlit("installed");
    reveal_strlit("uninstalling");
    reveal_strlit("uninstalled");
    reveal_strlit("failed");
    reveal_strlit("updating");
}

impl Named for AddOnStatus {
    open spec fn spec_from_name(s: Seq<char>) -> Option<AddOnStatus> {
        if s == "installing"@ {
            Some(AddOnStatus::Installing)
        } else if s == "installed"@ {
            Some(AddOnStatus::Installed)
        } else if s == "uninstalling"@ {
            Some(AddOnStatus::Uninstalling)
        } else if s == "uninstalled"@ {
            Some(AddOnStatus::Uninstalled)
        } else if s == "failed"@ {
            Some(AddOnStatus::Failed)
        } else if s == "updating"@ {
            Some(AddOnStatus::Updating)
        } else {
            None
        }
    }

    open spec fn spec_name(x: AddOnStatus) -> Seq<char> {
        match x {
            AddOnStatus::Installing => "installing"@,
            AddOnStatus::Installed => "installed"@,
            AddOnStatus::Uninstalling => "uninstalling"@,
            AddOnStatus::Uninstalled => "uninstalled"@,
            AddOnStatus::Failed => "failed"@,
            AddOnStatus::Updating => "updating"@,
        }
    }

    proof fn lemma_name_read_back(x: AddOnStatus) {
        lemma_add_on_status_names();
    }

    fn from_name(s: &String) -> (r: Option<AddOnStatus>) {
        proof {
            lemma_add_on_status_names();
        }
        if *s == "installing".to_owned() {
            return Some(AddOnStatus::Installing);
        }
        if *s == "installed".to_owned() {
            return Some(AddOnStatus::Installed);
        }
        if *s == "uninstalling".to_owned() {
            return Some(AddOnStatus::Uninstalling);
        }
        if *s == "uninstalled".to_owned() {
            return Some(AddOnStatus::Uninstalled);
        }
        if *s == "failed".to_owned() {
            return Some(AddOnStatus::Failed);
        }
        if *s == "updating".to_owned() {
            return Some(AddOnStatus::Updating);
        }
        None
    }

    fn name(&self) -> (r: &'static str) {
        match self {
            AddOnStatus::Installing => "installing",
            AddOnStatus::Installed => "installed",
            AddOnStatus::Uninstalling => "uninstalling",
            AddOnStatus::Uninstalled => "uninstalled",
            AddOnStatus::Failed => "failed",
            AddOnStatus::Updating => "updating",
        }
    }
}

// ----- account -----

/// An account the user belongs to.
#[derive(Debug, PartialEq)]
pub struct Account {
    /// Its identifier.
    pub id: i32,
    /// Its short name.
    pub slug: String,
}

pub struct AccountView {
    pub id: i32,
    pub slug: Seq<char>,
}

impl View for Account {
    type V = AccountView;

    open spec fn view(&self) -> AccountView {
        AccountView {
            id: self.id,
            slug: self.slug@,
        }
    }
}

pub open spec fn account_keys() -> Seq<Seq<char>> {
    keys_view(&["id", "slug"])
}

pub open spec fn account_slots(x: AccountView) -> Seq<(Seq<char>, Option<Tree>)> {
    seq![
        ("id"@, Some(Tree::Int(x.id as i64))),
        ("slug"@, Some(Tree::Text(x.slug))),
    ]
}

pub proof fn lemma_account_key_literals()
    ensures
        "id"@.len() == 2 && "id"@[0] == 'i' && "id"@[1] == 'd',
        "slug"@.len() == 4 && "slug"@[0] == 's' && "slug"@[1] == 'l',
{
    reveal_strlit("id");
    reveal_strlit("slug");
}

impl Record for Account {
    open spec fn read(t: Tree) -> Option<AccountView> {
        match t {
            Tree::Mapping(m) => {
                let id = read_i32(m, "id"@);
                let slug = read_text(m, "slug"@);
                if id is Some && slug is Some {
                    Some(
                        AccountView {
                            id: id->Some_0,
                            slug: slug->Some_0,
                        },
                    )
                } else {
                    None
                }
            },
            _ => None,
        }
    }

    open spec fn write(x: AccountView) -> Tree {
        Tree::Mapping(present(account_slots(x)))
    }

    open spec fn wf(x: AccountView) -> bool {
        true
    }

    proof fn lemma_read_back(x: AccountView) {
        let slots = account_slots(x);
        lemma_account_key_literals();
        assert(slot_keys(slots) =~= account_keys());
        lemma_record_read_back(slots, Seq::empty());
        assert(present(slots) + rest(Seq::<Entry>::empty(), account_keys()) =~= present(slots));
        assert(slots[0].0 == "id"@);
        assert(slots[1].0 == "slug"@);
    }

    proof fn lemma_read_wf(t: Tree) {
        if let Tree::Mapping(m) = t {
        }
    }

    fn from_value(v: &Value) -> (r: Result<Account, DecodeError>) {
        match v {
            Value::Mapping(m) => {
                proof {
                    lemma_mapping_view(m);
                }
                let id = get_i32(m, "id")?;
                let slug = get_text(m, "slug")?;
                Ok(Account { id, slug })
            },
            _ => Err(field_error("")),
        }
    }

    fn to_value(&self) -> (r: Value) {
        let mut m: Vec<(String, Value)> = Vec::new();
        assert(mapping_view(&m) =~= present(Seq::empty()));
        let g = Ghost(Seq::empty());
        let g = put_slot(&mut m, g, "id", Some(Value::Int(self.id as i64)));
        let g = put_slot(&mut m, g, "slug", Some(Value::Text(self.slug.clone())));
        proof {
            assert(g@ =~= account_slots(self@));
            lemma_mapping_view(&m);
        }
        Value::Mapping(m)
    }
}

// ----- user -----

/// The authenticated user.
#[derive(Debug, PartialEq)]
pub struct User {
    /// Its identifier.
    pub id: i32,
    /// Its e-mail address.
    pub email: String,
    /// Its name.
    pub name: String,
    /// The account in use.
    pub current_account: Account,
    /// Every account it belongs to.
    pub accounts: Vec<Account>,
}

pub struct UserView {
    pub id: i32,
    pub email: Seq<char>,
    pub name: Seq<char>,
    pub current_account: AccountView,
    pub accounts: Seq<AccountView>,
}

impl View for User {
    type V = UserView;

    open spec fn view(&self) -> UserView {
        UserView {
            id: self.id,
            email: self.email@,
            name: self.name@,
            current_account: self.current_account@,
            accounts: records_view(&self.accounts),
        }
    }
}

pub open spec fn user_keys() -> Seq<Seq<char>> {
    keys_view(&["id", "email", "name", "current_account", "accounts"])
}

pub open spec fn user_slots(x: UserView) -> Seq<(Seq<char>, Option<Tree>)> {
    seq![
        ("id"@, Some(Tree::Int(x.id as i64))),
        ("email"@, Some(Tree::Text(x.email))),
        ("name"@, Some(Tree::Text(x.name))),
        ("current_account"@, Some(Account::write(x.current_account))),
        ("accounts"@, write_list(x.accounts, writer::<Account>())),
    ]
}

pub proof fn lemma_user_key_literals()
    ensures
        "id"@.len() == 2 && "id"@[0] == 'i' && "id"@[1] == 'd',
        "email"@.len() == 5 && "email"@[0] == 'e' && "email"@[1] == 'm',
        "name"@.len() == 4 && "name"@[0] == 'n' && "name"@[1] == 'a',
        "current_account"@.len() == 15 && "current_account"@[0] == 'c' && "current_account"@[1] == 'u',
        "accounts"@.len() == 8 && "accounts"@[0] == 'a' && "accounts"@[1] == 'c',
{
    reveal_strlit("id");
    reveal_strlit("email");
    reveal_strlit("name");
    reveal_strlit("current_account");
    reveal_strlit("accounts");
}

impl Record for User {
    open spec fn read(t: Tree) -> Option<UserView> {
        match t {
            Tree::Mapping(m) => {
                let id = read_i32(m, "id"@);
                let email = read_text(m, "email"@);
                let name = read_text(m, "name"@);
                let current_account = read_record(m, "current_account"@, reader::<Account>());
                let accounts = read_list(m, "accounts"@, reader::<Account>());
                if id is Some && email is Some && name is Some && current_account is Some && accounts is Some {
                    Some(
                        UserView {
                            id: id->Some_0,
                            email: email->Some_0,
                            name: name->Some_0,
                            current_account: current_account->Some_0,
                            accounts: accounts->Some_0,
                        },
                    )
                } else {
                    None
                }
            },
            _ => None,
        }
    }

    open spec fn write(x: UserView) -> Tree {
        Tree::Mapping(present(user_slots(x)))
    }

    open spec fn wf(x: UserView) -> bool {
        &&& Account::wf(x.current_account)
        &&& all_wf::<Account>(x.accounts)
    }

    proof fn lemma_read_back(x: UserView) {
        let slots = user_slots(x);
        lemma_user_key_literals();
        assert(slot_keys(slots) =~= user_keys());
        lemma_record_read_back(slots, Seq::empty());
        assert(present(slots) + rest(Seq::<Entry>::empty(), user_keys()) =~= present(slots));
        let m = present(slots);
        assert(slots[0].0 == "id"@);
        assert(slots[1].0 == "email"@);
        assert(slots[2].0 == "name"@);
        assert(slots[3].0 == "current_account"@);
        assert(slots[4].0 == "accounts"@);
        lemma_record_entry_read_back::<Account>(m, "current_account"@, x.current_account);
        lemma_records_read_back::<Account>(m, "accounts"@, x.accounts);
    }

    proof fn lemma_read_wf(t: Tree) {
        if let Tree::Mapping(m) = t {
            lemma_record_entry_wf::<Account>(m, "current_account"@);
            lemma_records_list_wf::<Account>(m, "accounts"@);
        }
    }

    fn from_value(v: &Value) -> (r: Result<User, DecodeError>) {
        match v {
            Value::Mapping(m) => {
                proof {
                    lemma_mapping_view(m);
                }
                let id = get_i32(m, "id")?;
                let email = get_text(m, "email")?;
                let name = get_text(m, "name")?;
                let current_account = get_record(m, "current_account")?;
                let accounts = get_records(m, "accounts")?;
                Ok(User { id, email, name, current_account, accounts })
            },
            _ => Err(field_error("")),
        }
    }

    fn to_value(&self) -> (r: Value) {
        let mut m: Vec<(String, Value)> = Vec::new();
        assert(mapping_view(&m) =~= present(Seq::empty()));
        let g = Ghost(Seq::empty());
        let g = put_slot(&mut m, g, "id", Some(Value::Int(self.id as i64)));
        let g = put_slot(&mut m, g, "email", Some(Value::Text(self.email.clone())));
        let g = put_slot(&mut m, g, "name", Some(Value::Text(self.name.clone())));
        let g = put_slot(&mut m, g, "current_account", Some(self.current_account.to_value()));
        let g = put_slot(&mut m, g, "accounts", records_value(&self.accounts));
        proof {
            assert(g@ =~= user_slots(self@));
            lemma_mapping_view(&m);
        }
        Value::Mapping(m)
    }
}

// ----- me response -----

/// The authenticated user's address.
#[derive(Debug, PartialEq)]
pub struct MeResponse {
    /// Its e-mail address.
    pub email: String,
}

pub struct MeResponseView {
    pub email: Seq<char>,
}

impl View for MeResponse {
    type V = MeResponseView;

    open spec fn view(&self) -> MeResponseView {
        MeResponseView {
            email: self.email@,
        }
    }
}

pub open spec fn me_response_keys() -> Seq<Seq<char>> {
    keys_view(&["email"])
}

pub open spec fn me_response_slots(x: MeResponseView) -> Seq<(Seq<char>, Option<Tree>)> {
    seq![
        ("email"@, Some(Tree::Text(x.email))),
    ]
}

pub proof fn lemma_me_response_key_literals()
    ensures
        "email"@.len() == 5 && "email"@[0] == 'e' && "email"@[1] == 'm',
{
    reveal_strlit("email");
}

impl Record for MeResponse {
    open spec fn read(t: Tree) -> Option<MeResponseView> {
        match t {
            Tree::Mapping(m) => {
                let email = read_text(m, "email"@);
                if email is Some {
                    Some(
                        MeResponseView {
                            email: email->Some_0,
                        },
                    )
                } else {
                    None
                }
            },
            _ => None,
        }
    }

    open spec fn write(x: MeResponseView) -> Tree {
        Tree::Mapping(present(me_response_slots(x)))
    }

    open spec fn wf(x: MeResponseView) -> bool {
        true
    }

    proof fn lemma_read_back(x: MeResponseView) {
        let slots = me_response_slots(x);
        lemma_me_response_key_literals();
        assert(slot_keys(slots) =~= me_response_keys());
        lemma_record_read_back(slots, Seq::empty());
        assert(present(slots) + rest(Seq::<Entry>::empty(), me_response_keys()) =~= present(slots));
        assert(slots[0].0 == "email"@);
    }

    proof fn lemma_read_wf(t: Tree) {
        if let Tree::Mapping(m) = t {
        }
    }

    fn from_value(v: &Value) -> (r: Result<MeResponse, DecodeError>) {
        match v {
            Value::Mapping(m) => {
                proof {
                    lemma_mapping_view(m);
                }
                let email = get_text(m, "email")?;
                Ok(MeResponse { email })
            },
            _ => Err(field_error("")),
        }
    }

    fn to_value(&self) -> (r: Value) {
        let mut m: Vec<(String, Value)> = Vec::new();
        assert(mapping_view(&m) =~= present(Seq::empty()));
        let g = Ghost(Seq::empty());
        let g = put_slot(&mut m, g, "email", Some(Value::Text(self.email.clone())));
        proof {
            assert(g@ =~= me_response_slots(self@));
            lemma_mapping_view(&m);
        }
        Value::Mapping(m)
    }
}

// ----- project -----

/// A project.
#[derive(Debug, PartialEq)]
pub struct Project {
    /// Its identifier.
    pub id: i32,
    /// Its name.
    pub name: String,
    /// The namespace it runs in.
    pub namespace: String,
    /// Its source repository.
    pub repository_url: String,
    /// The branch it deploys.
    pub branch: String,
    /// Its state.
    pub status: ProjectStatus,
    /// The cluster it runs on.
    pub cluster_id: i32,
    /// That cluster's name.
    pub cluster_name: String,
}

pub struct ProjectView {
    pub id: i32,
    pub name: Seq<char>,
    pub namespace: Seq<char>,
    pub repository_url: Seq<char>,
    pub branch: Seq<char>,
    pub status: ProjectStatus,
    pub cluster_id: i32,
    pub cluster_name: Seq<char>,
}

impl View for Project {
    type V = ProjectView;

    open spec fn view(&self) -> ProjectView {
        ProjectView {
            id: self.id,
            name: self.name@,
            namespace: self.namespace@,
            repository_url: self.repository_url@,
            branch: self.branch@,
            status: self.status,
            cluster_id: self.cluster_id,
            cluster_name: self.cluster_name@,
        }
    }
}

pub open spec fn project_keys() -> Seq<Seq<char>> {
    keys_view(&["id", "name", "namespace", "repository_url", "branch", "status", "cluster_id", "cluster_name"])
}

pub open spec fn project_slots(x: ProjectView) -> Seq<(Seq<char>, Option<Tree>)> {
    seq![
        ("id"@, Some(Tree::Int(x.id as i64))),
        ("name"@, Some(Tree::Text(x.name))),
        ("namespace"@, Some(Tree::Text(x.namespace))),
        ("repository_url"@, Some(Tree::Text(x.repository_url))),
        ("branch"@, Some(Tree::Text(x.branch))),
        ("status"@, Some(Tree::Text(ProjectStatus::spec_name(x.status)))),
        ("cluster_id"@, Some(Tree::Int(x.cluster_id as i64))),
        ("cluster_name"@, Some(Tree::Text(x.cluster_name))),
    ]
}

pub proof fn lemma_project_key_literals()
    ensures
        "id"@.len() == 2 && "id"@[0] == 'i' && "id"@[1] == 'd',
        "name"@.len() == 4 && "name"@[0] == 'n' && "name"@[1] == 'a',
        "namespace"@.len() == 9 && "namespace"@[0] == 'n' && "namespace"@[1] == 'a',
        "repository_url"@.len() == 14 && "repository_url"@[0] == 'r' && "repository_url"@[1] == 'e',
        "branch"@.len() == 6 && "branch"@[0] == 'b' && "branch"@[1] == 'r',
        "status"@.len() == 6 && "status"@[0] == 's' && "status"@[1] == 't',
        "cluster_id"@.len() == 10 && "cluster_id"@[0] == 'c' && "cluster_id"@[1] == 'l',
        "cluster_name"@.len() == 12 && "cluster_name"@[0] == 'c' && "cluster_name"@[1] == 'l',
{
    reveal_strlit("id");
    reveal_strlit("name");
    reveal_strlit("namespace");
    reveal_strlit("repository_url");
    reveal_strlit("branch");
    reveal_strlit("status");
    reveal_strlit("cluster_id");
    reveal_strlit("cluster_name");
}

impl Record for Project {
    open spec fn read(t: Tree) -> Option<ProjectView> {
        match t {
            Tree::Mapping(m) => {
                let id = read_i32(m, "id"@);
                let name = read_text(m, "name"@);
                let namespace = read_text(m, "namespace"@);
                let repository_url = read_text(m, "repository_url"@);
                let branch = read_text(m, "branch"@);
                let status = read_named::<ProjectStatus>(m, "status"@);
                let cluster_id = read_i32(m, "cluster_id"@);
                let cluster_name = read_text(m, "cluster_name"@);
                if id is Some && name is Some && namespace is Some && repository_url is Some && branch is Some && status is Some && cluster_id is Some && cluster_name is Some {
                    Some(
                        ProjectView {
                            id: id->Some_0,
                            name: name->Some_0,
                            namespace: namespace->Some_0,
                            repository_url: repository_url->Some_0,
                            branch: branch->Some_0,
                            status: status->Some_0,
                            cluster_id: cluster_id->Some_0,
                            cluster_name: cluster_name->Some_0,
                        },
                    )
                } else {
                    None
                }
            },
            _ => None,
        }
    }

    open spec fn write(x: ProjectView) -> Tree {
        Tree::Mapping(present(project_slots(x)))
    }

    open spec fn wf(x: ProjectView) -> bool {
        true
    }

    proof fn lemma_read_back(x: ProjectView) {
        let slots = project_slots(x);
        lemma_project_key_literals();
        assert(slot_keys(slots) =~= project_keys());
        lemma_record_read_back(slots, Seq::empty());
        assert(present(slots) + rest(Seq::<Entry>::empty(), project_keys()) =~= present(slots));
        let m = present(slots);
        assert(slots[0].0 == "id"@);
        assert(slots[1].0 == "name"@);
        assert(slots[2].0 == "namespace"@);
        assert(slots[3].0 == "repository_url"@);
        assert(slots[4].0 == "branch"@);
        assert(slots[5].0 == "status"@);
        assert(slots[6].0 == "cluster_id"@);
        assert(slots[7].0 == "cluster_name"@);
        lemma_named_read_back::<ProjectStatus>(m, "status"@, x.status);
    }

    proof fn lemma_read_wf(t: Tree) {
        if let Tree::Mapping(m) = t {
        }
    }

    fn from_value(v: &Value) -> (r: Result<Project, DecodeError>) {
        match v {
            Value::Mapping(m) => {
                proof {
                    lemma_mapping_view(m);
                }
                let id = get_i32(m, "id")?;
                let name = get_text(m, "name")?;
                let namespace = get_text(m, "namespace")?;
                let repository_url = get_text(m, "repository_url")?;
                let branch = get_text(m, "branch")?;
                let status = get_named(m, "status")?;
                let cluster_id = get_i32(m, "cluster_id")?;
                let cluster_name = get_text(m, "cluster_name")?;
                Ok(Project { id, name, namespace, repository_url, branch, status, cluster_id, cluster_name })
            },
            _ => Err(field_error("")),
        }
    }

    fn to_value(&self) -> (r: Value) {
        let mut m: Vec<(String, Value)> = Vec::new();
        assert(mapping_view(&m) =~= present(Seq::empty()));
        let g = Ghost(Seq::empty());
        let g = put_slot(&mut m, g, "id", Some(Value::Int(self.id as i64)));
        let g = put_slot(&mut m, g, "name", Some(Value::Text(self.name.clone())));
        let g = put_slot(&mut m, g, "namespace", Some(Value::Text(self.namespace.clone())));
        let g = put_slot(&mut m, g, "repository_url", Some(Value::Text(self.repository_url.clone())));
        let g = put_slot(&mut m, g, "branch", Some(Value::Text(self.branch.clone())));
        let g = put_slot(&mut m, g, "status", name_value(&self.status));
        let g = put_slot(&mut m, g, "cluster_id", Some(Value::Int(self.cluster_id as i64)));
        let g = put_slot(&mut m, g, "cluster_name", Some(Value::Text(self.cluster_name.clone())));
        proof {
            assert(g@ =~= project_slots(self@));
            lemma_mapping_view(&m);
        }
        Value::Mapping(m)
    }
}

// ----- cluster -----

/// A cluster. Timestamps are kept as the API writes them.
#[derive(Debug, PartialEq)]
pub struct Cluster {
    /// Its identifier.
    pub id: i32,
    /// Its name.
    pub name: String,
    /// Its distribution.
    pub cluster_type: ClusterType,
    /// Its state.
    pub status: ClusterStatus,
    /// When it was created.
    pub created_at: String,
    /// When it last changed.
    pub updated_at: String,
}

pub struct ClusterView {
    pub id: i32,
    pub name: Seq<char>,
    pub cluster_type: ClusterType,
    pub status: ClusterStatus,
    pub created_at: Seq<char>,
    pub updated_at: Seq<char>,
}

impl View for Cluster {
    type V = ClusterView;

    open spec fn view(&self) -> ClusterView {
        ClusterView {
            id: self.id,
            name: self.name@,
            cluster_type: self.cluster_type,
            status: self.status,
            created_at: self.created_at@,
            updated_at: self.updated_at@,
        }
    }
}

pub open spec fn cluster_keys() -> Seq<Seq<char>> {
    keys_view(&["id", "name", "cluster_type", "status", "created_at", "updated_at"])
}

pub open spec fn cluster_slots(x: ClusterView) -> Seq<(Seq<char>, Option<Tree>)> {
    seq![
        ("id"@, Some(Tree::Int(x.id as i64))),
        ("name"@, Some(Tree::Text(x.name))),
        ("cluster_type"@, Some(Tree::Text(ClusterType::spec_name(x.cluster_type)))),
        ("status"@, Some(Tree::Text(ClusterStatus::spec_name(x.status)))),
        ("created_at"@, Some(Tree::Text(x.created_at))),
        ("updated_at"@, Some(Tree::Text(x.updated_at))),
    ]
}

pub proof fn lemma_cluster_key_literals()
    ensures
        "id"@.len() == 2 && "id"@[0] == 'i' && "id"@[1] == 'd',
        "name"@.len() == 4 && "name"@[0] == 'n' && "name"@[1] == 'a',
        "cluster_type"@.len() == 12 && "cluster_type"@[0] == 'c' && "cluster_type"@[1] == 'l',
        "status"@.len() == 6 && "status"@[0] == 's' && "status"@[1] == 't',
        "created_at"@.len() == 10 && "created_at"@[0] == 'c' && "created_at"@[1] == 'r',
        "updated_at"@.len() == 10 && "updated_at"@[0] == 'u' && "updated_at"@[1] == 'p',
{
    reveal_strlit("id");
    reveal_strlit("name");
    reveal_strlit("cluster_type");
    reveal_strlit("status");
    reveal_strlit("created_at");
    reveal_strlit("updated_at");
}

impl Record for Cluster {
    open spec fn read(t: Tree) -> Option<ClusterView> {
        match t {
            Tree::Mapping(m) => {
                let id = read_i32(m, "id"@);
                let name = read_text(m, "name"@);
                let cluster_type = read_named::<ClusterType>(m, "cluster_type"@);
                let status = read_named::<ClusterStatus>(m, "status"@);
                let created_at = read_text(m, "created_at"@);
                let updated_at = read_text(m, "updated_at"@);
                if id is Some && name is Some && cluster_type is Some && status is Some && created_at is Some && updated_at is Some {
                    Some(
                        ClusterView {
                            id: id->Some_0,
                            name: name->Some_0,
                            cluster_type: cluster_type->Some_0,
                            status: status->Some_0,
                            created_at: created_at->Some_0,
                            updated_at: updated_at->Some_0,
                        },
                    )
                } else {
                    None
                }
            },
            _ => None,
        }
    }

    open spec fn write(x: ClusterView) -> Tree {
        Tree::Mapping(present(cluster_slots(x)))
    }

    open spec fn wf(x: ClusterView) -> bool {
        true
    }

    proof fn lemma_read_back(x: ClusterView) {
        let slots = cluster_slots(x);
        lemma_cluster_key_literals();
        assert(slot_keys(slots) =~= cluster_keys());
        lemma_record_read_back(slots, Seq::empty());
        assert(present(slots) + rest(Seq::<Entry>::empty(), cluster_keys()) =~= present(slots));
        let m = present(slots);
        assert(slots[0].0 == "id"@);
        assert(slots[1].0 == "name"@);
        assert(slots[2].0 == "cluster_type"@);
        assert(slots[3].0 == "status"@);
        assert(slots[4].0 == "created_at"@);
        assert(slots[5].0 == "updated_at"@);
        lemma_named_read_back::<ClusterType>(m, "cluster_type"@, x.cluster_type);
        lemma_named_read_back::<ClusterStatus>(m, "status"@, x.status);
    }

    proof fn lemma_read_wf(t: Tree) {
        if let Tree::Mapping(m) = t {
        }
    }

    fn from_value(v: &Value) -> (r: Result<Cluster, DecodeError>) {
        match v {
            Value::Mapping(m) => {
                proof {
                    lemma_mapping_view(m);
                }
                let id = get_i32(m, "id")?;
                let name = get_text(m, "name")?;
                let cluster_type = get_named(m, "cluster_type")?;
                let status = get_named(m, "status")?;
                let created_at = get_text(m, "created_at")?;
                let updated_at = get_text(m, "updated_at")?;
                Ok(Cluster { id, name, cluster_type, status, created_at, updated_at })
            },
            _ => Err(field_error("")),
        }
    }

    fn to_value(&self) -> (r: Value) {
        let mut m: Vec<(String, Value)> = Vec::new();
        assert(mapping_view(&m) =~= present(Seq::empty()));
        let g = Ghost(Seq::empty());
        let g = put_slot(&mut m, g, "id", Some(Value::Int(self.id as i64)));
        let g = put_slot(&mut m, g, "name", Some(Value::Text(self.name.clone())));
        let g = put_slot(&mut m, g, "cluster_type", name_value(&self.cluster_type));
        let g = put_slot(&mut m, g, "status", name_value(&self.status));
        let g = put_slot(&mut m, g, "created_at", Some(Value::Text(self.created_at.clone())));
        let g = put_slot(&mut m, g, "updated_at", Some(Value::Text(self.updated_at.clone())));
        proof {
            assert(g@ =~= cluster_slots(self@));
            lemma_mapping_view(&m);
        }
        Value::Mapping(m)
    }
}

// ----- projects response -----

/// The projects of the account.
#[derive(Debug, PartialEq)]
pub struct ProjectsResponse {
    /// The projects.
    pub projects: Vec<Project>,
}

pub struct ProjectsResponseView {
    pub projects: Seq<ProjectView>,
}

impl View for ProjectsResponse {
    type V = ProjectsResponseView;

    open spec fn view(&self) -> ProjectsResponseView {
        ProjectsResponseView {
            projects: records_view(&self.projects),
        }
    }
}

pub open spec fn projects_response_keys() -> Seq<Seq<char>> {
    keys_view(&["projects"])
}

pub open spec fn projects_response_slots(x: ProjectsResponseView) -> Seq<(Seq<char>, Option<Tree>)> {
    seq![
        ("projects"@, write_list(x.projects, writer::<Project>())),
    ]
}

pub proof fn lemma_projects_response_key_literals()
    ensures
        "projects"@.len() == 8 && "projects"@[0] == 'p' && "projects"@[1] == 'r',
{
    reveal_strlit("projects");
}

impl Record for ProjectsResponse {
    open spec fn read(t: Tree) -> Option<ProjectsResponseView> {
        match t {
            Tree::Mapping(m) => {
                let projects = read_list(m, "projects"@, reader::<Project>());
                if projects is Some {
                    Some(
                        ProjectsResponseView {
                            projects: projects->Some_0,
                        },
                    )
                } else {
                    None
                }
            },
            _ => None,
        }
    }

    open spec fn write(x: ProjectsResponseView) -> Tree {
        Tree::Mapping(present(projects_response_slots(x)))
    }

    open spec fn wf(x: ProjectsResponseView) -> bool {
        &&& all_wf::<Project>(x.projects)
    }

    proof fn lemma_read_back(x: ProjectsResponseView) {
        let slots = projects_response_slots(x);
        lemma_projects_response_key_literals();
        assert(slot_keys(slots) =~= projects_response_keys());
        lemma_record_read_back(slots, Seq::empty());
        assert(present(slots) + rest(Seq::<Entry>::empty(), projects_response_keys()) =~= present(slots));
        let m = present(slots);
        assert(slots[0].0 == "projects"@);
        lemma_records_read_back::<Project>(m, "projects"@, x.projects);
    }

    proof fn lemma_read_wf(t: Tree) {
        if let Tree::Mapping(m) = t {
            lemma_records_list_wf::<Project>(m, "projects"@);
        }
    }

    fn from_value(v: &Value) -> (r: Result<ProjectsResponse, DecodeError>) {
        match v {
            Value::Mapping(m) => {
                proof {
                    lemma_mapping_view(m);
                }
                let projects = get_records(m, "projects")?;
                Ok(ProjectsResponse { projects })
            },
            _ => Err(field_error("")),
        }
    }

    fn to_value(&self) -> (r: Value) {
        let mut m: Vec<(String, Value)> = Vec::new();
        assert(mapping_view(&m) =~= present(Seq::empty()));
        let g = Ghost(Seq::empty());
        let g = put_slot(&mut m, g, "projects", records_value(&self.projects));
        proof {
            assert(g@ =~= projects_response_slots(self@));
            lemma_mapping_view(&m);
        }
        Value::Mapping(m)
    }
}

// ----- clusters response -----

/// The clusters of the account.
#[derive(Debug, PartialEq)]
pub struct ClustersResponse {
    /// The clusters.
    pub clusters: Vec<Cluster>,
}

pub struct ClustersResponseView {
    pub clusters: Seq<ClusterView>,
}

impl View for ClustersResponse {
    type V = ClustersResponseView;

    open spec fn view(&self) -> ClustersResponseView {
        ClustersResponseView {
            clusters: records_view(&self.clusters),
        }
    }
}

pub open spec fn clusters_response_keys() -> Seq<Seq<char>> {
    keys_view(&["clusters"])
}

pub open spec fn clusters_response_slots(x: ClustersResponseView) -> Seq<(Seq<char>, Option<Tree>)> {
    seq![
        ("clusters"@, write_list(x.clusters, writer::<Cluster>())),
    ]
}

pub proof fn lemma_clusters_response_key_literals()
    ensures
        "clusters"@.len() == 8 && "clusters"@[0] == 'c' && "clusters"@[1] == 'l',
{
    reveal_strlit("clusters");
}

impl Record for ClustersResponse {
    open spec fn read(t: Tree) -> Option<ClustersResponseView> {
        match t {
            Tree::Mapping(m) => {
                let clusters = read_list(m, "clusters"@, reader::<Cluster>());
                if clusters is Some {
                    Some(
                        ClustersResponseView {
                            clusters: clusters->Some_0,
                        },
                    )
                } else {
                    None
                }
            },
            _ => None,
        }
    }

    open spec fn write(x: ClustersResponseView) -> Tree {
        Tree::Mapping(present(clusters_response_slots(x)))
    }

    open spec fn wf(x: ClustersResponseView) -> bool {
        &&& all_wf::<Cluster>(x.clusters)
    }

    proof fn lemma_read_back(x: ClustersResponseView) {
        let slots = clusters_response_slots(x);
        lemma_clusters_response_key_literals();
        assert(slot_keys(slots) =~= clusters_response_keys());
        lemma_record_read_back(slots, Seq::empty());
        assert(present(slots) + rest(Seq::<Entry>::empty(), clusters_response_keys()) =~= present(slots));
        let m = present(slots);
        assert(slots[0].0 == "clusters"@);
        lemma_records_read_back::<Cluster>(m, "clusters"@, x.clusters);
    }

    proof fn lemma_read_wf(t: Tree) {
        if let Tree::Mapping(m) = t {
            lemma_records_list_wf::<Cluster>(m, "clusters"@);
        }
    }

    fn from_value(v: &Value) -> (r: Result<ClustersResponse, DecodeError>) {
        match v {
            Value::Mapping(m) => {
                proof {
                    lemma_mapping_view(m);
                }
                let clusters = get_records(m, "clusters")?;
                Ok(ClustersResponse { clusters })
            },
            _ => Err(field_error("")),
        }
    }

    fn to_value(&self) -> (r: Value) {
        let mut m: Vec<(String, Value)> = Vec::new();
        assert(mapping_view(&m) =~= present(Seq::empty()));
        let g = Ghost(Seq::empty());
        let g = put_slot(&mut m, g, "clusters", records_value(&self.clusters));
        proof {
            assert(g@ =~= clusters_response_slots(self@));
            lemma_mapping_view(&m);
        }
        Value::Mapping(m)
    }
}

// ----- builds response -----

/// Builds.
#[derive(Debug, PartialEq)]
pub struct BuildsResponse {
    /// The builds.
    pub builds: Vec<Build>,
}

pub struct BuildsResponseView {
    pub builds: Seq<BuildView>,
}

impl View for BuildsResponse {
    type V = BuildsResponseView;

    open spec fn view(&self) -> BuildsResponseView {
        BuildsResponseView {
            builds: records_view(&self.builds),
        }
    }
}

pub open spec fn builds_response_keys() -> Seq<Seq<char>> {
    keys_view(&["builds"])
}

pub open spec fn builds_response_slots(x: BuildsResponseView) -> Seq<(Seq<char>, Option<Tree>)> {
    seq![
        ("builds"@, write_list(x.builds, writer::<Build>())),
    ]
}

pub proof fn lemma_builds_response_key_literals()
    ensures
        "builds"@.len() == 6 && "builds"@[0] == 'b' && "builds"@[1] == 'u',
{
    reveal_strlit("builds");
}

impl Record for BuildsResponse {
    open spec fn read(t: Tree) -> Option<BuildsResponseView> {
        match t {
            Tree::Mapping(m) => {
                let builds = read_list(m, "builds"@, reader::<Build>());
                if builds is Some {
                    Some(
                        BuildsResponseView {
                            builds: builds->Some_0,
                        },
                    )
                } else {
                    None
                }
            },
            _ => None,
        }
    }

    open spec fn write(x: BuildsResponseView) -> Tree {
        Tree::Mapping(present(builds_response_slots(x)))
    }

    open spec fn wf(x: BuildsResponseView) -> bool {
        &&& all_wf::<Build>(x.builds)
    }

    proof fn lemma_read_back(x: BuildsResponseView) {
        let slots = builds_response_slots(x);
        lemma_builds_response_key_literals();
        assert(slot_keys(slots) =~= builds_response_keys());
        lemma_record_read_back(slots, Seq::empty());
        assert(present(slots) + rest(Seq::<Entry>::empty(), builds_response_keys()) =~= present(slots));
        let m = present(slots);
        assert(slots[0].0 == "builds"@);
        lemma_records_read_back::<Build>(m, "builds"@, x.builds);
    }

    proof fn lemma_read_wf(t: Tree) {
        if let Tree::Mapping(m) = t {
            lemma_records_list_wf::<Build>(m, "builds"@);
        }
    }

    fn from_value(v: &Value) -> (r: Result<BuildsResponse, DecodeError>) {
        match v {
            Value::Mapping(m) => {
                proof {
                    lemma_mapping_view(m);
                }
                let builds = get_records(m, "builds")?;
                Ok(BuildsResponse { builds })
            },
            _ => Err(field_error("")),
        }
    }

    fn to_value(&self) -> (r: Value) {
        let mut m: Vec<(String, Value)> = Vec::new();
        assert(mapping_view(&m) =~= present(Seq::empty()));
        let g = Ghost(Seq::empty());
        let g = put_slot(&mut m, g, "builds", records_value(&self.builds));
        proof {
            assert(g@ =~= builds_response_slots(self@));
            lemma_mapping_view(&m);
        }
        Value::Mapping(m)
    }
}

// ----- process -----

/// A process of a project.
#[derive(Debug, PartialEq)]
pub struct Process {
    /// The pod's name.
    pub name: String,
    /// The pod's namespace.
    pub namespace: String,
    /// The pod's phase.
    pub status: ProcessStatus,
}

pub struct ProcessView {
    pub name: Seq<char>,
    pub namespace: Seq<char>,
    pub status: ProcessStatus,
}

impl View for Process {
    type V = ProcessView;

    open spec fn view(&self) -> ProcessView {
        ProcessView {
            name: self.name@,
            namespace: self.namespace@,
            status: self.status,
        }
    }
}

pub open spec fn process_keys() -> Seq<Seq<char>> {
    keys_view(&["name", "namespace", "status"])
}

pub open spec fn process_slots(x: ProcessView) -> Seq<(Seq<char>, Option<Tree>)> {
    seq![
        ("name"@, Some(Tree::Text(x.name))),
        ("namespace"@, Some(Tree::Text(x.namespace))),
        ("status"@, Some(Tree::Text(ProcessStatus::spec_name(x.status)))),
    ]
}

pub proof fn lemma_process_key_literals()
    ensures
        "name"@.len() == 4 && "name"@[0] == 'n' && "name"@[1] == 'a',
        "namespace"@.len() == 9 && "namespace"@[0] == 'n' && "namespace"@[1] == 'a',
        "status"@.len() == 6 && "status"@[0] == 's' && "status"@[1] == 't',
{
    reveal_strlit("name");
    reveal_strlit("namespace");
    reveal_strlit("status");
}

impl Record for Process {
    open spec fn read(t: Tree) -> Option<ProcessView> {
        match t {
            Tree::Mapping(m) => {
                let name = read_text(m, "name"@);
                let namespace = read_text(m, "namespace"@);
                let status = read_named::<ProcessStatus>(m, "status"@);
                if name is Some && namespace is Some && status is Some {
                    Some(
                        ProcessView {
                            name: name->Some_0,
                            namespace: namespace->Some_0,
                            status: status->Some_0,
                        },
                    )
                } else {
                    None
                }
            },
            _ => None,
        }
    }

    open spec fn write(x: ProcessView) -> Tree {
        Tree::Mapping(present(process_slots(x)))
    }

    open spec fn wf(x: ProcessView) -> bool {
        true
    }

    proof fn lemma_read_back(x: ProcessView) {
        let slots = process_slots(x);
        lemma_process_key_literals();
        assert(slot_keys(slots) =~= process_keys());
        lemma_record_read_back(slots, Seq::empty());
        assert(present(slots) + rest(Seq::<Entry>::empty(), process_keys()) =~= present(slots));
        let m = present(slots);
        assert(slots[0].0 == "name"@);
        assert(slots[1].0 == "namespace"@);
        assert(slots[2].0 == "status"@);
        lemma_named_read_back::<ProcessStatus>(m, "status"@, x.status);
    }

    proof fn lemma_read_wf(t: Tree) {
        if let Tree::Mapping(m) = t {
        }
    }

    fn from_value(v: &Value) -> (r: Result<Process, DecodeError>) {
        match v {
            Value::Mapping(m) => {
                proof {
                    lemma_mapping_view(m);
                }
                let name = get_text(m, "name")?;
                let namespace = get_text(m, "namespace")?;
                let status = get_named(m, "status")?;
                Ok(Process { name, namespace, status })
            },
            _ => Err(field_error("")),
        }
    }

    fn to_value(&self) -> (r: Value) {
        let mut m: Vec<(String, Value)> = Vec::new();
        assert(mapping_view(&m) =~= present(Seq::empty()));
        let g = Ghost(Seq::empty());
        let g = put_slot(&mut m, g, "name", Some(Value::Text(self.name.clone())));
        let g = put_slot(&mut m, g, "namespace", Some(Value::Text(self.namespace.clone())));
        let g = put_slot(&mut m, g, "status", name_value(&self.status));
        proof {
            assert(g@ =~= process_slots(self@));
            lemma_mapping_view(&m);
        }
        Value::Mapping(m)
    }
}

// ----- processes response -----

/// The processes of a project.
#[derive(Debug, PartialEq)]
pub struct ProcessesResponse {
    /// The processes.
    pub pods: Vec<Process>,
}

pub struct ProcessesResponseView {
    pub pods: Seq<ProcessView>,
}

impl View for ProcessesResponse {
    type V = ProcessesResponseView;

    open spec fn view(&self) -> ProcessesResponseView {
        ProcessesResponseView {
            pods: records_view(&self.pods),
        }
    }
}

pub open spec fn processes_response_keys() -> Seq<Seq<char>> {
    keys_view(&["pods"])
}

pub open spec fn processes_response_slots(x: ProcessesResponseView) -> Seq<(Seq<char>, Option<Tree>)> {
    seq![
        ("pods"@, write_list(x.pods, writer::<Process>())),
    ]
}

pub proof fn lemma_processes_response_key_literals()
    ensures
        "pods"@.len() == 4 && "pods"@[0] == 'p' && "pods"@[1] == 'o',
{
    reveal_strlit("pods");
}

impl Record for ProcessesResponse {
    open spec fn read(t: Tree) -> Option<ProcessesResponseView> {
        match t {
            Tree::Mapping(m) => {
                let pods = read_list(m, "pods"@, reader::<Process>());
                if pods is Some {
                    Some(
                        ProcessesResponseView {
                            pods: pods->Some_0,
                        },
                    )
                } else {
                    None
                }
            },
            _ => None,
        }
    }

    open spec fn write(x: ProcessesResponseView) -> Tree {
        Tree::Mapping(present(processes_response_slots(x)))
    }

    open spec fn wf(x: ProcessesResponseView) -> bool {
        &&& all_wf::<Process>(x.pods)
    }

    proof fn lemma_read_back(x: ProcessesResponseView) {
        let slots = processes_response_slots(x);
        lemma_processes_response_key_literals();
        assert(slot_keys(slots) =~= processes_response_keys());
        lemma_record_read_back(slots, Seq::empty());
        assert(present(slots) + rest(Seq::<Entry>::empty(), processes_response_keys()) =~= present(slots));
        let m = present(slots);
        assert(slots[0].0 == "pods"@);
        lemma_records_read_back::<Process>(m, "pods"@, x.pods);
    }

    proof fn lemma_read_wf(t: Tree) {
        if let Tree::Mapping(m) = t {
            lemma_records_list_wf::<Process>(m, "pods"@);
        }
    }

    fn from_value(v: &Value) -> (r: Result<ProcessesResponse, DecodeError>) {
        match v {
            Value::Mapping(m) => {
                proof {
                    lemma_mapping_view(m);
                }
                let pods = get_records(m, "pods")?;
                Ok(ProcessesResponse { pods })
            },
            _ => Err(field_error("")),
        }
    }

    fn to_value(&self) -> (r: Value) {
        let mut m: Vec<(String, Value)> = Vec::new();
        assert(mapping_view(&m) =~= present(Seq::empty()));
        let g = Ghost(Seq::empty());
        let g = put_slot(&mut m, g, "pods", records_value(&self.pods));
        proof {
            assert(g@ =~= processes_response_slots(self@));
            lemma_mapping_view(&m);
        }
        Value::Mapping(m)
    }
}

// ----- deploy project response -----

/// The answer to a deployment request.
#[derive(Debug, PartialEq)]
pub struct DeployProjectResponse {
    /// What the API says.
    pub message: String,
    /// The build it started.
    pub build_id: i32,
}

pub struct DeployProjectResponseView {
    pub message: Seq<char>,
    pub build_id: i32,
}

impl View for DeployProjectResponse {
    type V = DeployProjectResponseView;

    open spec fn view(&self) -> DeployProjectResponseView {
        DeployProjectResponseView {
            message: self.message@,
            build_id: self.build_id,
        }
    }
}

pub open spec fn deploy_project_response_keys() -> Seq<Seq<char>> {
    keys_view(&["message", "build_id"])
}

pub open spec fn deploy_project_response_slots(x: DeployProjectResponseView) -> Seq<(Seq<char>, Option<Tree>)> {
    seq![
        ("message"@, Some(Tree::Text(x.message))),
        ("build_id"@, Some(Tree::Int(x.build_id as i64))),
    ]
}

pub proof fn lemma_deploy_project_response_key_literals()
    ensures
        "message"@.len() == 7 && "message"@[0] == 'm' && "message"@[1] == 'e',
        "build_id"@.len() == 8 && "build_id"@[0] == 'b' && "build_id"@[1] == 'u',
{
    reveal_strlit("message");
    reveal_strlit("build_id");
}

impl Record for DeployProjectResponse {
    open spec fn read(t: Tree) -> Option<DeployProjectResponseView> {
        match t {
            Tree::Mapping(m) => {
                let message = read_text(m, "message"@);
                let build_id = read_i32(m, "build_id"@);
                if message is Some && build_id is Some {
                    Some(
                        DeployProjectResponseView {
                            message: message->Some_0,
                            build_id: build_id->Some_0,
                        },
                    )
                } else {
                    None
                }
            },
            _ => None,
        }
    }

    open spec fn write(x: DeployProjectResponseView) -> Tree {
        Tree::Mapping(present(deploy_project_response_slots(x)))
    }

    open spec fn wf(x: DeployProjectResponseView) -> bool {
        true
    }

    proof fn lemma_read_back(x: DeployProjectResponseView) {
        let slots = deploy_project_response_slots(x);
        lemma_deploy_project_response_key_literals();
        assert(slot_keys(slots) =~= deploy_project_response_keys());
        lemma_record_read_back(slots, Seq::empty());
        assert(present(slots) + rest(Seq::<Entry>::empty(), deploy_project_response_keys()) =~= present(slots));
        assert(slots[0].0 == "message"@);
        assert(slots[1].0 == "build_id"@);
    }

    proof fn lemma_read_wf(t: Tree) {
        if let Tree::Mapping(m) = t {
        }
    }

    fn from_value(v: &Value) -> (r: Result<DeployProjectResponse, DecodeError>) {
        match v {
            Value::Mapping(m) => {
                proof {
                    lemma_mapping_view(m);
                }
                let message = get_text(m, "message")?;
                let build_id = get_i32(m, "build_id")?;
                Ok(DeployProjectResponse { message, build_id })
            },
            _ => Err(field_error("")),
        }
    }

    fn to_value(&self) -> (r: Value) {
        let mut m: Vec<(String, Value)> = Vec::new();
        assert(mapping_view(&m) =~= present(Seq::empty()));
        let g = Ghost(Seq::empty());
        let g = put_slot(&mut m, g, "message", Some(Value::Text(self.message.clone())));
        let g = put_slot(&mut m, g, "build_id", Some(Value::Int(self.build_id as i64)));
        proof {
            assert(g@ =~= deploy_project_response_slots(self@));
            lemma_mapping_view(&m);
        }
        Value::Mapping(m)
    }
}

// ----- pod -----

/// A pod, as created or last observed.
#[derive(Debug, PartialEq)]
pub struct Pod {
    /// Its name.
    pub name: String,
    /// Its namespace.
    pub namespace: String,
    /// Its phase.
    pub status: ProcessStatus,
}

pub struct PodView {
    pub name: Seq<char>,
    pub namespace: Seq<char>,
    pub status: ProcessStatus,
}

impl View for Pod {
    type V = PodView;

    open spec fn view(&self) -> PodView {
        PodView {
            name: self.name@,
            namespace: self.namespace@,
            status: self.status,
        }
    }
}

pub open spec fn pod_keys() -> Seq<Seq<char>> {
    keys_view(&["name", "namespace", "status"])
}

pub open spec fn pod_slots(x: PodView) -> Seq<(Seq<char>, Option<Tree>)> {
    seq![
        ("name"@, Some(Tree::Text(x.name))),
        ("namespace"@, Some(Tree::Text(x.namespace))),
        ("status"@, Some(Tree::Text(ProcessStatus::spec_name(x.status)))),
    ]
}

pub proof fn lemma_pod_key_literals()
    ensures
        "name"@.len() == 4 && "name"@[0] == 'n' && "name"@[1] == 'a',
        "namespace"@.len() == 9 && "namespace"@[0] == 'n' && "namespace"@[1] == 'a',
        "status"@.len() == 6 && "status"@[0] == 's' && "status"@[1] == 't',
{
    reveal_strlit("name");
    reveal_strlit("namespace");
    reveal_strlit("status");
}

impl Record for Pod {
    open spec fn read(t: Tree) -> Option<PodView> {
        match t {
            Tree::Mapping(m) => {
                let name = read_text(m, "name"@);
                let namespace = read_text(m, "namespace"@);
                let status = read_named::<ProcessStatus>(m, "status"@);
                if name is Some && namespace is Some && status is Some {
                    Some(
                        PodView {
                            name: name->Some_0,
                            namespace: namespace->Some_0,
                            status: status->Some_0,
                        },
                    )
                } else {
                    None
                }
            },
            _ => None,
        }
    }

    open spec fn write(x: PodView) -> Tree {
        Tree::Mapping(present(pod_slots(x)))
    }

    open spec fn wf(x: PodView) -> bool {
        true
    }

    proof fn lemma_read_back(x: PodView) {
        let slots = pod_slots(x);
        lemma_pod_key_literals();
        assert(slot_keys(slots) =~= pod_keys());
        lemma_record_read_back(slots, Seq::empty());
        assert(present(slots) + rest(Seq::<Entry>::empty(), pod_keys()) =~= present(slots));
        let m = present(slots);
        assert(slots[0].0 == "name"@);
        assert(slots[1].0 == "namespace"@);
        assert(slots[2].0 == "status"@);
        lemma_named_read_back::<ProcessStatus>(m, "status"@, x.status);
    }

    proof fn lemma_read_wf(t: Tree) {
        if let Tree::Mapping(m) = t {
        }
    }

    fn from_value(v: &Value) -> (r: Result<Pod, DecodeError>) {
        match v {
            Value::Mapping(m) => {
                proof {
                    lemma_mapping_view(m);
                }
                let name = get_text(m, "name")?;
                let namespace = get_text(m, "namespace")?;
                let status = get_named(m, "status")?;
                Ok(Pod { name, namespace, status })
            },
            _ => Err(field_error("")),
        }
    }

    fn to_value(&self) -> (r: Value) {
        let mut m: Vec<(String, Value)> = Vec::new();
        assert(mapping_view(&m) =~= present(Seq::empty()));
        let g = Ghost(Seq::empty());
        let g = put_slot(&mut m, g, "name", Some(Value::Text(self.name.clone())));
        let g = put_slot(&mut m, g, "namespace", Some(Value::Text(self.namespace.clone())));
        let g = put_slot(&mut m, g, "status", name_value(&self.status));
        proof {
            assert(g@ =~= pod_slots(self@));
            lemma_mapping_view(&m);
        }
        Value::Mapping(m)
    }
}

// ----- deploy project request -----

/// A deployment request.
#[derive(Debug, PartialEq)]
pub struct DeployProjectRequest {
    /// Whether to deploy without building.
    pub skip_build: bool,
}

pub struct DeployProjectRequestView {
    pub skip_build: bool,
}

impl View for DeployProjectRequest {
    type V = DeployProjectRequestView;

    open spec fn view(&self) -> DeployProjectRequestView {
        DeployProjectRequestView {
            skip_build: self.skip_build,
        }
    }
}

pub open spec fn deploy_project_request_keys() -> Seq<Seq<char>> {
    keys_view(&["skip_build"])
}

pub open spec fn deploy_project_request_slots(x: DeployProjectRequestView) -> Seq<(Seq<char>, Option<Tree>)> {
    seq![
        ("skip_build"@, Some(Tree::Bool(x.skip_build))),
    ]
}

pub proof fn lemma_deploy_project_request_key_literals()
    ensures
        "skip_build"@.len() == 10 && "skip_build"@[0] == 's' && "skip_build"@[1] == 'k',
{
    reveal_strlit("skip_build");
}

impl Record for DeployProjectRequest {
    open spec fn read(t: Tree) -> Option<DeployProjectRequestView> {
        match t {
            Tree::Mapping(m) => {
                let skip_build = read_bool(m, "skip_build"@);
                if skip_build is Some {
                    Some(
                        DeployProjectRequestView {
                            skip_build: skip_build->Some_0,
                        },
                    )
                } else {
                    None
                }
            },
            _ => None,
        }
    }

    open spec fn write(x: DeployProjectRequestView) -> Tree {
        Tree::Mapping(present(deploy_project_request_slots(x)))
    }

    open spec fn wf(x: DeployProjectRequestView) -> bool {
        true
    }

    proof fn lemma_read_back(x: DeployProjectRequestView) {
        let slots = deploy_project_request_slots(x);
        lemma_deploy_project_request_key_literals();
        assert(slot_keys(slots) =~= deploy_project_request_keys());
        lemma_record_read_back(slots, Seq::empty());
        assert(present(slots) + rest(Seq::<Entry>::empty(), deploy_project_request_keys()) =~= present(slots));
        assert(slots[0].0 == "skip_build"@);
    }

    proof fn lemma_read_wf(t: Tree) {
        if let Tree::Mapping(m) = t {
        }
    }

    fn from_value(v: &Value) -> (r: Result<DeployProjectRequest, DecodeError>) {
        match v {
            Value::Mapping(m) => {
                proof {
                    lemma_mapping_view(m);
                }
                let skip_build = get_bool(m, "skip_build")?;
                Ok(DeployProjectRequest { skip_build })
            },
            _ => Err(field_error("")),
        }
    }

    fn to_value(&self) -> (r: Value) {
        let mut m: Vec<(String, Value)> = Vec::new();
        assert(mapping_view(&m) =~= present(Seq::empty()));
        let g = Ghost(Seq::empty());
        let g = put_slot(&mut m, g, "skip_build", Some(Value::Bool(self.skip_build)));
        proof {
            assert(g@ =~= deploy_project_request_slots(self@));
            lemma_mapping_view(&m);
        }
        Value::Mapping(m)
    }
}

// ----- cluster kubeconfig response -----

/// The kubeconfig document of a cluster.
#[derive(Debug, PartialEq)]
pub struct ClusterKubeconfigResponse {
    /// The document.
    pub kubeconfig: Kubeconfig,
}

pub struct ClusterKubeconfigResponseView {
    pub kubeconfig: KubeconfigView,
}

impl View for ClusterKubeconfigResponse {
    type V = ClusterKubeconfigResponseView;

    open spec fn view(&self) -> ClusterKubeconfigResponseView {
        ClusterKubeconfigResponseView {
            kubeconfig: self.kubeconfig@,
        }
    }
}

pub open spec fn cluster_kubeconfig_response_keys() -> Seq<Seq<char>> {
    keys_view(&["kubeconfig"])
}

pub open spec fn cluster_kubeconfig_response_slots(x: ClusterKubeconfigResponseView) -> Seq<(Seq<char>, Option<Tree>)> {
    seq![
        ("kubeconfig"@, Some(Kubeconfig::write(x.kubeconfig))),
    ]
}

pub proof fn lemma_cluster_kubeconfig_response_key_literals()
    ensures
        "kubeconfig"@.len() == 10 && "kubeconfig"@[0] == 'k' && "kubeconfig"@[1] == 'u',
{
    reveal_strlit("kubeconfig");
}

impl Record for ClusterKubeconfigResponse {
    open spec fn read(t: Tree) -> Option<ClusterKubeconfigResponseView> {
        match t {
            Tree::Mapping(m) => {
                let kubeconfig = read_record(m, "kubeconfig"@, reader::<Kubeconfig>());
                if kubeconfig is Some {
                    Some(
                        ClusterKubeconfigResponseView {
                            kubeconfig: kubeconfig->Some_0,
                        },
                    )
                } else {
                    None
                }
            },
            _ => None,
        }
    }

    open spec fn write(x: ClusterKubeconfigResponseView) -> Tree {
        Tree::Mapping(present(cluster_kubeconfig_response_slots(x)))
    }

    open spec fn wf(x: ClusterKubeconfigResponseView) -> bool {
        &&& Kubeconfig::wf(x.kubeconfig)
    }

    proof fn lemma_read_back(x: ClusterKubeconfigResponseView) {
        let slots = cluster_kubeconfig_response_slots(x);
        lemma_cluster_kubeconfig_response_key_literals();
        assert(slot_keys(slots) =~= cluster_kubeconfig_response_keys());
        lemma_record_read_back(slots, Seq::empty());
        assert(present(slots) + rest(Seq::<Entry>::empty(), cluster_kubeconfig_response_keys()) =~= present(slots));
        let m = present(slots);
        assert(slots[0].0 == "kubeconfig"@);
        lemma_record_entry_read_back::<Kubeconfig>(m, "kubeconfig"@, x.kubeconfig);
    }

    proof fn lemma_read_wf(t: Tree) {
        if let Tree::Mapping(m) = t {
            lemma_record_entry_wf::<Kubeconfig>(m, "kubeconfig"@);
        }
    }

    fn from_value(v: &Value) -> (r: Result<ClusterKubeconfigResponse, DecodeError>) {
        match v {
            Value::Mapping(m) => {
                proof {
                    lemma_mapping_view(m);
                }
                let kubeconfig = get_record(m, "kubeconfig")?;
                Ok(ClusterKubeconfigResponse { kubeconfig })
            },
            _ => Err(field_error("")),
        }
    }

    fn to_value(&self) -> (r: Value) {
        let mut m: Vec<(String, Value)> = Vec::new();
        assert(mapping_view(&m) =~= present(Seq::empty()));
        let g = Ghost(Seq::empty());
        let g = put_slot(&mut m, g, "kubeconfig", Some(self.kubeconfig.to_value()));
        proof {
            assert(g@ =~= cluster_kubeconfig_response_slots(self@));
            lemma_mapping_view(&m);
        }
        Value::Mapping(m)
    }
}

// ----- build -----

/// A build of a project.
#[derive(Debug, PartialEq)]
pub struct Build {
    /// Its identifier.
    pub id: i32,
    /// The commit built.
    pub commit_sha: String,
    /// That commit's message.
    pub commit_message: String,
    /// The project.
    pub project_id: i32,
    /// The project's short name.
    pub project_slug: String,
}

pub struct BuildView {
    pub id: i32,
    pub commit_sha: Seq<char>,
    pub commit_message: Seq<char>,
    pub project_id: i32,
    pub project_slug: Seq<char>,
}

impl View for Build {
    type V = BuildView;

    open spec fn view(&self) -> BuildView {
        BuildView {
            id: self.id,
            commit_sha: self.commit_sha@,
            commit_message: self.commit_message@,
            project_id: self.project_id,
            project_slug: self.project_slug@,
        }
    }
}

pub open spec fn build_keys() -> Seq<Seq<char>> {
    keys_view(&["id", "commit_sha", "commit_message", "project_id", "project_slug"])
}

pub open spec fn build_slots(x: BuildView) -> Seq<(Seq<char>, Option<Tree>)> {
    seq![
        ("id"@, Some(Tree::Int(x.id as i64))),
        ("commit_sha"@, Some(Tree::Text(x.commit_sha))),
        ("commit_message"@, Some(Tree::Text(x.commit_message))),
        ("project_id"@, Some(Tree::Int(x.project_id as i64))),
        ("project_slug"@, Some(Tree::Text(x.project_slug))),
    ]
}

pub proof fn lemma_build_key_literals()
    ensures
        "id"@.len() == 2 && "id"@[0] == 'i' && "id"@[1] == 'd',
        "commit_sha"@.len() == 10 && "commit_sha"@[0] == 'c' && "commit_sha"@[1] == 'o',
        "commit_message"@.len() == 14 && "commit_message"@[0] == 'c' && "commit_message"@[1] == 'o',
        "project_id"@.len() == 10 && "project_id"@[0] == 'p' && "project_id"@[1] == 'r',
        "project_slug"@.len() == 12 && "project_slug"@[0] == 'p' && "project_slug"@[1] == 'r',
{
    reveal_strlit("id");
    reveal_strlit("commit_sha");
    reveal_strlit("commit_message");
    reveal_strlit("project_id");
    reveal_strlit("project_slug");
}

impl Record for Build {
    open spec fn read(t: Tree) -> Option<BuildView> {
        match t {
            Tree::Mapping(m) => {
                let id = read_i32(m, "id"@);
                let commit_sha = read_text(m, "commit_sha"@);
                let commit_message = read_text(m, "commit_message"@);
                let project_id = read_i32(m, "project_id"@);
                let project_slug = read_text(m, "project_slug"@);
                if id is Some && commit_sha is Some && commit_message is Some && project_id is Some && project_slug is Some {
                    Some(
                        BuildView {
                            id: id->Some_0,
                            commit_sha: commit_sha->Some_0,
                            commit_message: commit_message->Some_0,
                            project_id: project_id->Some_0,
                            project_slug: project_slug->Some_0,
                        },
                    )
                } else {
                    None
                }
            },
            _ => None,
        }
    }

    open spec fn write(x: BuildView) -> Tree {
        Tree::Mapping(present(build_slots(x)))
    }

    open spec fn wf(x: BuildView) -> bool {
        true
    }

    proof fn lemma_read_back(x: BuildView) {
        let slots = build_slots(x);
        lemma_build_key_literals();
        assert(slot_keys(slots) =~= build_keys());
        lemma_record_read_back(slots, Seq::empty());
        assert(present(slots) + rest(Seq::<Entry>::empty(), build_keys()) =~= present(slots));
        assert(slots[0].0 == "id"@);
        assert(slots[1].0 == "commit_sha"@);
        assert(slots[2].0 == "commit_message"@);
        assert(slots[3].0 == "project_id"@);
        assert(slots[4].0 == "project_slug"@);
    }

    proof fn lemma_read_wf(t: Tree) {
        if let Tree::Mapping(m) = t {
        }
    }

    fn from_value(v: &Value) -> (r: Result<Build, DecodeError>) {
        match v {
            Value::Mapping(m) => {
                proof {
                    lemma_mapping_view(m);
                }
                let id = get_i32(m, "id")?;
                let commit_sha = get_text(m, "commit_sha")?;
                let commit_message = get_text(m, "commit_message")?;
                let project_id = get_i32(m, "project_id")?;
                let project_slug = get_text(m, "project_slug")?;
                Ok(Build { id, commit_sha, commit_message, project_id, project_slug })
            },
            _ => Err(field_error("")),
        }
    }

    fn to_value(&self) -> (r: Value) {
        let mut m: Vec<(String, Value)> = Vec::new();
        assert(mapping_view(&m) =~= present(Seq::empty()));
        let g = Ghost(Seq::empty());
        let g = put_slot(&mut m, g, "id", Some(Value::Int(self.id as i64)));
        let g = put_slot(&mut m, g, "commit_sha", Some(Value::Text(self.commit_sha.clone())));
        let g = put_slot(&mut m, g, "commit_message", Some(Value::Text(self.commit_message.clone())));
        let g = put_slot(&mut m, g, "project_id", Some(Value::Int(self.project_id as i64)));
        let g = put_slot(&mut m, g, "project_slug", Some(Value::Text(self.project_slug.clone())));
        proof {
            assert(g@ =~= build_slots(self@));
            lemma_mapping_view(&m);
        }
        Value::Mapping(m)
    }
}

// ----- add ons response -----

/// The add-ons of the account.
#[derive(Debug, PartialEq)]
pub struct AddOnsResponse {
    /// The add-ons.
    pub add_ons: Vec<AddOn>,
}

pub struct AddOnsResponseView {
    pub add_ons: Seq<AddOnView>,
}

impl View for AddOnsResponse {
    type V = AddOnsResponseView;

    open spec fn view(&self) -> AddOnsResponseView {
        AddOnsResponseView {
            add_ons: records_view(&self.add_ons),
        }
    }
}

pub open spec fn add_ons_response_keys() -> Seq<Seq<char>> {
    keys_view(&["add_ons"])
}

pub open spec fn add_ons_response_slots(x: AddOnsResponseView) -> Seq<(Seq<char>, Option<Tree>)> {
    seq![
        ("add_ons"@, write_list(x.add_ons, writer::<AddOn>())),
    ]
}

pub proof fn lemma_add_ons_response_key_literals()
    ensures
        "add_ons"@.len() == 7 && "add_ons"@[0] == 'a' && "add_ons"@[1] == 'd',
{
    reveal_strlit("add_ons");
}

impl Record for AddOnsResponse {
    open spec fn read(t: Tree) -> Option<AddOnsResponseView> {
        match t {
            Tree::Mapping(m) => {
                let add_ons = read_list(m, "add_ons"@, reader::<AddOn>());
                if add_ons is Some {
                    Some(
                        AddOnsResponseView {
                            add_ons: add_ons->Some_0,
                        },
                    )
                } else {
                    None
                }
            },
            _ => None,
        }
    }

    open spec fn write(x: AddOnsResponseView) -> Tree {
        Tree::Mapping(present(add_ons_response_slots(x)))
    }

    open spec fn wf(x: AddOnsResponseView) -> bool {
        &&& all_wf::<AddOn>(x.add_ons)
    }

    proof fn lemma_read_back(x: AddOnsResponseView) {
        let slots = add_ons_response_slots(x);
        lemma_add_ons_response_key_literals();
        assert(slot_keys(slots) =~= add_ons_response_keys());
        lemma_record_read_back(slots, Seq::empty());
        assert(present(slots) + rest(Seq::<Entry>::empty(), add_ons_response_keys()) =~= present(slots));
        let m = present(slots);
        assert(slots[0].0 == "add_ons"@);
        lemma_records_read_back::<AddOn>(m, "add_ons"@, x.add_ons);
    }

    proof fn lemma_read_wf(t: Tree) {
        if let Tree::Mapping(m) = t {
            lemma_records_list_wf::<AddOn>(m, "add_ons"@);
        }
    }

    fn from_value(v: &Value) -> (r: Result<AddOnsResponse, DecodeError>) {
        match v {
            Value::Mapping(m) => {
                proof {
                    lemma_mapping_view(m);
                }
                let add_ons = get_records(m, "add_ons")?;
                Ok(AddOnsResponse { add_ons })
            },
            _ => Err(field_error("")),
        }
    }

    fn to_value(&self) -> (r: Value) {
        let mut m: Vec<(String, Value)> = Vec::new();
        assert(mapping_view(&m) =~= present(Seq::empty()));
        let g = Ghost(Seq::empty());
        let g = put_slot(&mut m, g, "add_ons", records_value(&self.add_ons));
        proof {
            assert(g@ =~= add_ons_response_slots(self@));
            lemma_mapping_view(&m);
        }
        Value::Mapping(m)
    }
}

// ----- add on -----

/// An add-on installed on a cluster.
#[derive(Debug, PartialEq)]
pub struct AddOn {
    /// Its identifier.
    pub id: i32,
    /// Its name.
    pub name: String,
    /// Its state.
    pub status: AddOnStatus,
    /// The cluster.
    pub cluster_id: i32,
    /// That cluster's name.
    pub cluster_name: String,
}

pub struct AddOnView {
    pub id: i32,
    pub name: Seq<char>,
    pub status: AddOnStatus,
    pub cluster_id: i32,
    pub cluster_name: Seq<char>,
}

impl View for AddOn {
    type V = AddOnView;

    open spec fn view(&self) -> AddOnView {
        AddOnView {
            id: self.id,
            name: self.name@,
            status: self.status,
            cluster_id: self.cluster_id,
            cluster_name: self.cluster_name@,
        }
    }
}

pub open spec fn add_on_keys() -> Seq<Seq<char>> {
    keys_view(&["id", "name", "status", "cluster_id", "cluster_name"])
}

pub open spec fn add_on_slots(x: AddOnView) -> Seq<(Seq<char>, Option<Tree>)> {
    seq![
        ("id"@, Some(Tree::Int(x.id as i64))),
        ("name"@, Some(Tree::Text(x.name))),
        ("status"@, Some(Tree::Text(AddOnStatus::spec_name(x.status)))),
        ("cluster_id"@, Some(Tree::Int(x.cluster_id as i64))),
        ("cluster_name"@, Some(Tree::Text(x.cluster_name))),
    ]
}

pub proof fn lemma_add_on_key_literals()
    ensures
        "id"@.len() == 2 && "id"@[0] == 'i' && "id"@[1] == 'd',
        "name"@.len() == 4 && "name"@[0] == 'n' && "name"@[1] == 'a',
        "status"@.len() == 6 && "status"@[0] == 's' && "status"@[1] == 't',
        "cluster_id"@.len() == 10 && "cluster_id"@[0] == 'c' && "cluster_id"@[1] == 'l',
        "cluster_name"@.len() == 12 && "cluster_name"@[0] == 'c' && "cluster_name"@[1] == 'l',
{
    reveal_strlit("id");
    reveal_strlit("name");
    reveal_strlit("status");
    reveal_strlit("cluster_id");
    reveal_strlit("cluster_name");
}

impl Record for AddOn {
    open spec fn read(t: Tree) -> Option<AddOnView> {
        match t {
            Tree::Mapping(m) => {
                let id = read_i32(m, "id"@);
                let name = read_text(m, "name"@);
                let status = read_named::<AddOnStatus>(m, "status"@);
                let cluster_id = read_i32(m, "cluster_id"@);
                let cluster_name = read_text(m, "cluster_name"@);
                if id is Some && name is Some && status is Some && cluster_id is Some && cluster_name is Some {
                    Some(
                        AddOnView {
                            id: id->Some_0,
                            name: name->Some_0,
                            status: status->Some_0,
                            cluster_id: cluster_id->Some_0,
                            cluster_name: cluster_name->Some_0,
                        },
                    )
                } else {
                    None
                }
            },
            _ => None,
        }
    }

    open spec fn write(x: AddOnView) -> Tree {
        Tree::Mapping(present(add_on_slots(x)))
    }

    open spec fn wf(x: AddOnView) -> bool {
        true
    }

    proof fn lemma_read_back(x: AddOnView) {
        let slots = add_on_slots(x);
        lemma_add_on_key_literals();
        assert(slot_keys(slots) =~= add_on_keys());
        lemma_record_read_back(slots, Seq::empty());
        assert(present(slots) + rest(Seq::<Entry>::empty(), add_on_keys()) =~= present(slots));
        let m = present(slots);
        assert(slots[0].0 == "id"@);
        assert(slots[1].0 == "name"@);
        assert(slots[2].0 == "status"@);
        assert(slots[3].0 == "cluster_id"@);
        assert(slots[4].0 == "cluster_name"@);
        lemma_named_read_back::<AddOnStatus>(m, "status"@, x.status);
    }

    proof fn lemma_read_wf(t: Tree) {
        if let Tree::Mapping(m) = t {
        }
    }

    fn from_value(v: &Value) -> (r: Result<AddOn, DecodeError>) {
        match v {
            Value::Mapping(m) => {
                proof {
                    lemma_mapping_view(m);
                }
                let id = get_i32(m, "id")?;
                let name = get_text(m, "name")?;
                let status = get_named(m, "status")?;
                let cluster_id = get_i32(m, "cluster_id")?;
                let cluster_name = get_text(m, "cluster_name")?;
                Ok(AddOn { id, name, status, cluster_id, cluster_name })
            },
            _ => Err(field_error("")),
        }
    }

    fn to_value(&self) -> (r: Value) {
        let mut m: Vec<(String, Value)> = Vec::new();
        assert(mapping_view(&m) =~= present(Seq::empty()));
        let g = Ghost(Seq::empty());
        let g = put_slot(&mut m, g, "id", Some(Value::Int(self.id as i64)));
        let g = put_slot(&mut m, g, "name", Some(Value::Text(self.name.clone())));
        let g = put_slot(&mut m, g, "status", name_value(&self.status));
        let g = put_slot(&mut m, g, "cluster_id", Some(Value::Int(self.cluster_id as i64)));
        let g = put_slot(&mut m, g, "cluster_name", Some(Value::Text(self.cluster_name.clone())));
        proof {
            assert(g@ =~= add_on_slots(self@));
            lemma_mapping_view(&m);
        }
        Value::Mapping(m)
    }
}

} // verus!
