//! The kubeconfig document model.
//!
//! Each record keeps the entries that it does not name in `extra`, in their
//! order, so that reading a document and writing it back loses nothing.
//! Writing leaves out absent optional fields and empty lists and mappings,
//! and an entry of `extra` under a key that the record names is not written:
//! the named field takes precedence.
use vstd::prelude::*;
use crate::value::{
    Value, Tree, Entry, lookup, rest, present, slot_keys, keys_view, lemma_record_read_back,
    lemma_rest_idempotent,
};
use crate::codec::{
    DecodeError, Record, mapping_view, records_view, texts_view, pairs_view, groups_view,
    opt_text_view, reader, writer, all_wf, text_item, texts_item, text_node, texts_node, read_text,
    read_opt_text, read_opt_bool, read_texts, read_map, read_list, read_opt_record, read_record,
    write_opt_text, write_opt_bool, write_texts, write_map, write_list, write_opt_record,
    lemma_mapping_view, lemma_records_read_back, lemma_records_list_wf, lemma_texts_read_back,
    lemma_text_map_read_back, lemma_text_groups_read_back, lemma_opt_record_read_back,
    lemma_record_entry_read_back, lemma_opt_record_wf, lemma_record_entry_wf, get_text,
    get_opt_text, get_opt_bool, get_texts, get_text_map, get_text_groups, get_records,
    get_opt_record, get_record, records_value, opt_text_value, opt_bool_value, texts_value,
    text_map_value, text_groups_value, opt_record_value, put_slot, put_all, rest_of, find,
    copy_value, field_error,
};

verus! {

/// A payload entry; missing reads as null.
pub open spec fn read_payload(m: Seq<Entry>, k: Seq<char>) -> Tree {
    match lookup(m, k) {
        Some(t) => t,
        None => Tree::Null,
    }
}

// ----- named extension -----

/// A vendor extension: a name and an arbitrary payload.
#[derive(Debug, PartialEq)]
pub struct NamedExtension {
    /// The extension's name.
    pub name: String,
    /// The payload; null when the entry is missing.
    pub extension: Value,
    /// The entries that no field above names, in their order.
    pub extra: Vec<(String, Value)>,
}

pub struct NamedExtensionView {
    pub name: Seq<char>,
    pub extension: Tree,
    pub extra: Seq<Entry>,
}

impl View for NamedExtension {
    type V = NamedExtensionView;

    open spec fn view(&self) -> NamedExtensionView {
        NamedExtensionView {
            name: self.name@,
            extension: self.extension@,
            extra: mapping_view(&self.extra),
        }
    }
}

pub open spec fn named_extension_keys() -> Seq<Seq<char>> {
    keys_view(&["name", "extension"])
}

pub open spec fn named_extension_slots(x: NamedExtensionView) -> Seq<(Seq<char>, Option<Tree>)> {
    seq![
        ("name"@, Some(Tree::Text(x.name))),
        ("extension"@, Some(x.extension)),
    ]
}

pub proof fn lemma_named_extension_key_literals()
    ensures
        "name"@.len() == 4 && "name"@[0] == 'n' && "name"@[1] == 'a',
        "extension"@.len() == 9 && "extension"@[0] == 'e' && "extension"@[1] == 'x',
{
    reveal_strlit("name");
    reveal_strlit("extension");
}

impl Record for NamedExtension {
    open spec fn read(t: Tree) -> Option<NamedExtensionView> {
        match t {
            Tree::Mapping(m) => {
                let name = read_text(m, "name"@);
                let extension = read_payload(m, "extension"@);
                if name is Some {
                    Some(
                        NamedExtensionView {
                            name: name->Some_0,
                            extension,
                            extra: rest(m, named_extension_keys()),
                        },
                    )
                } else {
                    None
                }
            },
            _ => None,
        }
    }

    open spec fn write(x: NamedExtensionView) -> Tree {
        Tree::Mapping(present(named_extension_slots(x)) + rest(x.extra, named_extension_keys()))
    }

    open spec fn wf(x: NamedExtensionView) -> bool {
        &&& rest(x.extra, named_extension_keys()) == x.extra
    }

    proof fn lemma_read_back(x: NamedExtensionView) {
        let slots = named_extension_slots(x);
        lemma_named_extension_key_literals();
        assert(slot_keys(slots) =~= named_extension_keys());
        lemma_record_read_back(slots, x.extra);
        assert(slots[0].0 == "name"@);
        assert(slots[1].0 == "extension"@);
    }

    proof fn lemma_read_wf(t: Tree) {
        if let Tree::Mapping(m) = t {
            lemma_rest_idempotent(m, named_extension_keys());
        }
    }

    fn from_value(v: &Value) -> (r: Result<NamedExtension, DecodeError>) {
        match v {
            Value::Mapping(m) => {
                proof {
                    lemma_mapping_view(m);
                }
                let name = get_text(m, "name")?;
                let extension = match find(m, "extension") {
                    Some(e) => copy_value(e),
                    None => Value::Null,
                };
                let extra = rest_of(m, &["name", "extension"]);
                Ok(NamedExtension { name, extension, extra })
            },
            _ => Err(field_error("")),
        }
    }

    fn to_value(&self) -> (r: Value) {
        let mut m: Vec<(String, Value)> = Vec::new();
        assert(mapping_view(&m) =~= present(Seq::empty()));
        let g = Ghost(Seq::empty());
        let g = put_slot(&mut m, g, "name", Some(Value::Text(self.name.clone())));
        let g = put_slot(&mut m, g, "extension", Some(copy_value(&self.extension)));
        put_all(&mut m, rest_of(&self.extra, &["name", "extension"]));
        proof {
            assert(g@ =~= named_extension_slots(self@));
            lemma_mapping_view(&m);
        }
        Value::Mapping(m)
    }
}

// ----- preferences -----

/// Free-form preferences, kept as they were read.
#[derive(Debug, PartialEq)]
pub struct Preferences {
    /// The entries that no field above names, in their order.
    pub extra: Vec<(String, Value)>,
}

pub struct PreferencesView {
    pub extra: Seq<Entry>,
}

impl View for Preferences {
    type V = PreferencesView;

    open spec fn view(&self) -> PreferencesView {
        PreferencesView {
            extra: mapping_view(&self.extra),
        }
    }
}

pub open spec fn preferences_keys() -> Seq<Seq<char>> {
    keys_view(&[])
}

pub open spec fn preferences_slots(x: PreferencesView) -> Seq<(Seq<char>, Option<Tree>)> {
    seq![
    ]
}

impl Record for Preferences {
    open spec fn read(t: Tree) -> Option<PreferencesView> {
        match t {
            Tree::Mapping(m) => {
                Some(PreferencesView { extra: rest(m, preferences_keys()) })
            },
            _ => None,
        }
    }

    open spec fn write(x: PreferencesView) -> Tree {
        Tree::Mapping(present(preferences_slots(x)) + rest(x.extra, preferences_keys()))
    }

    open spec fn wf(x: PreferencesView) -> bool {
        &&& rest(x.extra, preferences_keys()) == x.extra
    }

    proof fn lemma_read_back(x: PreferencesView) {
        let slots = preferences_slots(x);
        assert(slot_keys(slots) =~= preferences_keys());
        lemma_record_read_back(slots, x.extra);
    }

    proof fn lemma_read_wf(t: Tree) {
        if let Tree::Mapping(m) = t {
            lemma_rest_idempotent(m, preferences_keys());
        }
    }

    fn from_value(v: &Value) -> (r: Result<Preferences, DecodeError>) {
        match v {
            Value::Mapping(m) => {
                proof {
                    lemma_mapping_view(m);
                }
                let extra = rest_of(m, &[]);
                Ok(Preferences { extra })
            },
            _ => Err(field_error("")),
        }
    }

    fn to_value(&self) -> (r: Value) {
        let mut m: Vec<(String, Value)> = Vec::new();
        assert(mapping_view(&m) =~= present(Seq::empty()));
        let g = Ghost(Seq::empty());
        put_all(&mut m, rest_of(&self.extra, &[]));
        proof {
            assert(g@ =~= preferences_slots(self@));
            lemma_mapping_view(&m);
        }
        Value::Mapping(m)
    }
}

// ----- cluster -----

/// How to reach a cluster's API server.
#[derive(Debug, PartialEq)]
pub struct Cluster {
    /// The API server's address.
    pub server: String,
    /// Path of a CA certificate file.
    pub certificate_authority: Option<String>,
    /// A CA certificate, inline.
    pub certificate_authority_data: Option<String>,
    /// Whether TLS verification is skipped.
    pub insecure_skip_tls_verify: Option<bool>,
    /// A proxy to go through.
    pub proxy_url: Option<String>,
    /// Vendor extensions.
    pub extensions: Vec<NamedExtension>,
    /// The entries that no field above names, in their order.
    pub extra: Vec<(String, Value)>,
}

pub struct ClusterView {
    pub server: Seq<char>,
    pub certificate_authority: Option<Seq<char>>,
    pub certificate_authority_data: Option<Seq<char>>,
    pub insecure_skip_tls_verify: Option<bool>,
    pub proxy_url: Option<Seq<char>>,
    pub extensions: Seq<NamedExtensionView>,
    pub extra: Seq<Entry>,
}

impl View for Cluster {
    type V = ClusterView;

    open spec fn view(&self) -> ClusterView {
        ClusterView {
            server: self.server@,
            certificate_authority: opt_text_view(self.certificate_authority),
            certificate_authority_data: opt_text_view(self.certificate_authority_data),
            insecure_skip_tls_verify: self.insecure_skip_tls_verify,
            proxy_url: opt_text_view(self.proxy_url),
            extensions: records_view(&self.extensions),
            extra: mapping_view(&self.extra),
        }
    }
}

pub open spec fn cluster_keys() -> Seq<Seq<char>> {
    keys_view(&["server", "certificate-authority", "certificate-authority-data", "insecure-skip-tls-verify", "proxy-url", "extensions"])
}

pub open spec fn cluster_slots(x: ClusterView) -> Seq<(Seq<char>, Option<Tree>)> {
    seq![
        ("server"@, Some(Tree::Text(x.server))),
        ("certificate-authority"@, write_opt_text(x.certificate_authority)),
        ("certificate-authority-data"@, write_opt_text(x.certificate_authority_data)),
        ("insecure-skip-tls-verify"@, write_opt_bool(x.insecure_skip_tls_verify)),
        ("proxy-url"@, write_opt_text(x.proxy_url)),
        ("extensions"@, write_list(x.extensions, writer::<NamedExtension>())),
    ]
}

pub proof fn lemma_cluster_key_literals()
    ensures
        "server"@.len() == 6 && "server"@[0] == 's' && "server"@[1] == 'e',
        "certificate-authority"@.len() == 21 && "certificate-authority"@[0] == 'c' && "certificate-authority"@[1] == 'e',
        "certificate-authority-data"@.len() == 26 && "certificate-authority-data"@[0] == 'c' && "certificate-authority-data"@[1] == 'e',
        "insecure-skip-tls-verify"@.len() == 24 && "insecure-skip-tls-verify"@[0] == 'i' && "insecure-skip-tls-verify"@[1] == 'n',
        "proxy-url"@.len() == 9 && "proxy-url"@[0] == 'p' && "proxy-url"@[1] == 'r',
        "extensions"@.len() == 10 && "extensions"@[0] == 'e' && "extensions"@[1] == 'x',
{
    reveal_strlit("server");
    reveal_strlit("certificate-authority");
    reveal_strlit("certificate-authority-data");
    reveal_strlit("insecure-skip-tls-verify");
    reveal_strlit("proxy-url");
    reveal_strlit("extensions");
}

impl Record for Cluster {
    open spec fn read(t: Tree) -> Option<ClusterView> {
        match t {
            Tree::Mapping(m) => {
                let server = read_text(m, "server"@);
                let certificate_authority = read_opt_text(m, "certificate-authority"@);
                let certificate_authority_data = read_opt_text(m, "certificate-authority-data"@);
                let insecure_skip_tls_verify = read_opt_bool(m, "insecure-skip-tls-verify"@);
                let proxy_url = read_opt_text(m, "proxy-url"@);
                let extensions = read_list(m, "extensions"@, reader::<NamedExtension>());
                if server is Some && certificate_authority is Some && certificate_authority_data is Some && insecure_skip_tls_verify is Some && proxy_url is Some && extensions is Some {
                    Some(
                        ClusterView {
                            server: server->Some_0,
                            certificate_authority: certificate_authority->Some_0,
                            certificate_authority_data: certificate_authority_data->Some_0,
                            insecure_skip_tls_verify: insecure_skip_tls_verify->Some_0,
                            proxy_url: proxy_url->Some_0,
                            extensions: extensions->Some_0,
                            extra: rest(m, cluster_keys()),
                        },
                    )
                } else {
                    None
                }
            },
            _ => None,
        }
    }

    open spec fn write(x: ClusterView) -> Tree {
        Tree::Mapping(present(cluster_slots(x)) + rest(x.extra, cluster_keys()))
    }

    open spec fn wf(x: ClusterView) -> bool {
        &&& rest(x.extra, cluster_keys()) == x.extra
        &&& all_wf::<NamedExtension>(x.extensions)
    }

    proof fn lemma_read_back(x: ClusterView) {
        let slots = cluster_slots(x);
        lemma_cluster_key_literals();
        assert(slot_keys(slots) =~= cluster_keys());
        lemma_record_read_back(slots, x.extra);
        let m = present(slots) + rest(x.extra, cluster_keys());
        assert(slots[0].0 == "server"@);
        assert(slots[1].0 == "certificate-authority"@);
        assert(slots[2].0 == "certificate-authority-data"@);
        assert(slots[3].0 == "insecure-skip-tls-verify"@);
        assert(slots[4].0 == "proxy-url"@);
        assert(slots[5].0 == "extensions"@);
        lemma_records_read_back::<NamedExtension>(m, "extensions"@, x.extensions);
    }

    proof fn lemma_read_wf(t: Tree) {
        if let Tree::Mapping(m) = t {
            lemma_rest_idempotent(m, cluster_keys());
            lemma_records_list_wf::<NamedExtension>(m, "extensions"@);
        }
    }

    fn from_value(v: &Value) -> (r: Result<Cluster, DecodeError>) {
        match v {
            Value::Mapping(m) => {
                proof {
                    lemma_mapping_view(m);
                }
                let server = get_text(m, "server")?;
                let certificate_authority = get_opt_text(m, "certificate-authority")?;
                let certificate_authority_data = get_opt_text(m, "certificate-authority-data")?;
                let insecure_skip_tls_verify = get_opt_bool(m, "insecure-skip-tls-verify")?;
                let proxy_url = get_opt_text(m, "proxy-url")?;
                let extensions = get_records(m, "extensions")?;
                let extra = rest_of(m, &["server", "certificate-authority", "certificate-authority-data", "insecure-skip-tls-verify", "proxy-url", "extensions"]);
                Ok(Cluster { server, certificate_authority, certificate_authority_data, insecure_skip_tls_verify, proxy_url, extensions, extra })
            },
            _ => Err(field_error("")),
        }
    }

    fn to_value(&self) -> (r: Value) {
        let mut m: Vec<(String, Value)> = Vec::new();
        assert(mapping_view(&m) =~= present(Seq::empty()));
        let g = Ghost(Seq::empty());
        let g = put_slot(&mut m, g, "server", Some(Value::Text(self.server.clone())));
        let g = put_slot(&mut m, g, "certificate-authority", opt_text_value(&self.certificate_authority));
        let g = put_slot(&mut m, g, "certificate-authority-data", opt_text_value(&self.certificate_authority_data));
        let g = put_slot(&mut m, g, "insecure-skip-tls-verify", opt_bool_value(self.insecure_skip_tls_verify));
        let g = put_slot(&mut m, g, "proxy-url", opt_text_value(&self.proxy_url));
        let g = put_slot(&mut m, g, "extensions", records_value(&self.extensions));
        put_all(&mut m, rest_of(&self.extra, &["server", "certificate-authority", "certificate-authority-data", "insecure-skip-tls-verify", "proxy-url", "extensions"]));
        proof {
            assert(g@ =~= cluster_slots(self@));
            lemma_mapping_view(&m);
        }
        Value::Mapping(m)
    }
}

// ----- named cluster -----

/// A cluster under a name.
#[derive(Debug, PartialEq)]
pub struct NamedCluster {
    /// The name contexts refer to.
    pub name: String,
    /// The cluster.
    pub cluster: Cluster,
    /// The entries that no field above names, in their order.
    pub extra: Vec<(String, Value)>,
}

pub struct NamedClusterView {
    pub name: Seq<char>,
    pub cluster: ClusterView,
    pub extra: Seq<Entry>,
}

impl View for NamedCluster {
    type V = NamedClusterView;

    open spec fn view(&self) -> NamedClusterView {
        NamedClusterView {
            name: self.name@,
            cluster: self.cluster@,
            extra: mapping_view(&self.extra),
        }
    }
}

pub open spec fn named_cluster_keys() -> Seq<Seq<char>> {
    keys_view(&["name", "cluster"])
}

pub open spec fn named_cluster_slots(x: NamedClusterView) -> Seq<(Seq<char>, Option<Tree>)> {
    seq![
        ("name"@, Some(Tree::Text(x.name))),
        ("cluster"@, Some(Cluster::write(x.cluster))),
    ]
}

pub proof fn lemma_named_cluster_key_literals()
    ensures
        "name"@.len() == 4 && "name"@[0] == 'n' && "name"@[1] == 'a',
        "cluster"@.len() == 7 && "cluster"@[0] == 'c' && "cluster"@[1] == 'l',
{
    reveal_strlit("name");
    reveal_strlit("cluster");
}

impl Record for NamedCluster {
    open spec fn read(t: Tree) -> Option<NamedClusterView> {
        match t {
            Tree::Mapping(m) => {
                let name = read_text(m, "name"@);
                let cluster = read_record(m, "cluster"@, reader::<Cluster>());
                if name is Some && cluster is Some {
                    Some(
                        NamedClusterView {
                            name: name->Some_0,
                            cluster: cluster->Some_0,
                            extra: rest(m, named_cluster_keys()),
                        },
                    )
                } else {
                    None
                }
            },
            _ => None,
        }
    }

    open spec fn write(x: NamedClusterView) -> Tree {
        Tree::Mapping(present(named_cluster_slots(x)) + rest(x.extra, named_cluster_keys()))
    }

    open spec fn wf(x: NamedClusterView) -> bool {
        &&& rest(x.extra, named_cluster_keys()) == x.extra
        &&& Cluster::wf(x.cluster)
    }

    proof fn lemma_read_back(x: NamedClusterView) {
        let slots = named_cluster_slots(x);
        lemma_named_cluster_key_literals();
        assert(slot_keys(slots) =~= named_cluster_keys());
        lemma_record_read_back(slots, x.extra);
        let m = present(slots) + rest(x.extra, named_cluster_keys());
        assert(slots[0].0 == "name"@);
        assert(slots[1].0 == "cluster"@);
        lemma_record_entry_read_back::<Cluster>(m, "cluster"@, x.cluster);
    }

    proof fn lemma_read_wf(t: Tree) {
        if let Tree::Mapping(m) = t {
            lemma_rest_idempotent(m, named_cluster_keys());
            lemma_record_entry_wf::<Cluster>(m, "cluster"@);
        }
    }

    fn from_value(v: &Value) -> (r: Result<NamedCluster, DecodeError>) {
        match v {
            Value::Mapping(m) => {
                proof {
                    lemma_mapping_view(m);
                }
                let name = get_text(m, "name")?;
                let cluster = get_record(m, "cluster")?;
                let extra = rest_of(m, &["name", "cluster"]);
                Ok(NamedCluster { name, cluster, extra })
            },
            _ => Err(field_error("")),
        }
    }

    fn to_value(&self) -> (r: Value) {
        let mut m: Vec<(String, Value)> = Vec::new();
        assert(mapping_view(&m) =~= present(Seq::empty()));
        let g = Ghost(Seq::empty());
        let g = put_slot(&mut m, g, "name", Some(Value::Text(self.name.clone())));
        let g = put_slot(&mut m, g, "cluster", Some(self.cluster.to_value()));
        put_all(&mut m, rest_of(&self.extra, &["name", "cluster"]));
        proof {
            assert(g@ =~= named_cluster_slots(self@));
            lemma_mapping_view(&m);
        }
        Value::Mapping(m)
    }
}

// ----- context -----

/// A context: the cluster and the user it binds, by name, and a namespace.
#[derive(Debug, PartialEq)]
pub struct Context {
    /// The cluster's name; not checked against the document's clusters.
    pub cluster: String,
    /// The user's name; not checked against the document's users.
    pub user: String,
    /// The default namespace.
    pub namespace: Option<String>,
    /// Vendor extensions.
    pub extensions: Vec<NamedExtension>,
    /// The entries that no field above names, in their order.
    pub extra: Vec<(String, Value)>,
}

pub struct ContextView {
    pub cluster: Seq<char>,
    pub user: Seq<char>,
    pub namespace: Option<Seq<char>>,
    pub extensions: Seq<NamedExtensionView>,
    pub extra: Seq<Entry>,
}

impl View for Context {
    type V = ContextView;

    open spec fn view(&self) -> ContextView {
        ContextView {
            cluster: self.cluster@,
            user: self.user@,
            namespace: opt_text_view(self.namespace),
            extensions: records_view(&self.extensions),
            extra: mapping_view(&self.extra),
        }
    }
}

pub open spec fn context_keys() -> Seq<Seq<char>> {
    keys_view(&["cluster", "user", "namespace", "extensions"])
}

pub open spec fn context_slots(x: ContextView) -> Seq<(Seq<char>, Option<Tree>)> {
    seq![
        ("cluster"@, Some(Tree::Text(x.cluster))),
        ("user"@, Some(Tree::Text(x.user))),
        ("namespace"@, write_opt_text(x.namespace)),
        ("extensions"@, write_list(x.extensions, writer::<NamedExtension>())),
    ]
}

pub proof fn lemma_context_key_literals()
    ensures
        "cluster"@.len() == 7 && "cluster"@[0] == 'c' && "cluster"@[1] == 'l',
        "user"@.len() == 4 && "user"@[0] == 'u' && "user"@[1] == 's',
        "namespace"@.len() == 9 && "namespace"@[0] == 'n' && "namespace"@[1] == 'a',
        "extensions"@.len() == 10 && "extensions"@[0] == 'e' && "extensions"@[1] == 'x',
{
    reveal_strlit("cluster");
    reveal_strlit("user");
    reveal_strlit("namespace");
    reveal_strlit("extensions");
}

impl Record for Context {
    open spec fn read(t: Tree) -> Option<ContextView> {
        match t {
            Tree::Mapping(m) => {
                let cluster = read_text(m, "cluster"@);
                let user = read_text(m, "user"@);
                let namespace = read_opt_text(m, "namespace"@);
                let extensions = read_list(m, "extensions"@, reader::<NamedExtension>());
                if cluster is Some && user is Some && namespace is Some && extensions is Some {
                    Some(
                        ContextView {
                            cluster: cluster->Some_0,
                            user: user->Some_0,
                            namespace: namespace->Some_0,
                            extensions: extensions->Some_0,
                            extra: rest(m, context_keys()),
                        },
                    )
                } else {
                    None
                }
            },
            _ => None,
        }
    }

    open spec fn write(x: ContextView) -> Tree {
        Tree::Mapping(present(context_slots(x)) + rest(x.extra, context_keys()))
    }

    open spec fn wf(x: ContextView) -> bool {
        &&& rest(x.extra, context_keys()) == x.extra
        &&& all_wf::<NamedExtension>(x.extensions)
    }

    proof fn lemma_read_back(x: ContextView) {
        let slots = context_slots(x);
        lemma_context_key_literals();
        assert(slot_keys(slots) =~= context_keys());
        lemma_record_read_back(slots, x.extra);
        let m = present(slots) + rest(x.extra, context_keys());
        assert(slots[0].0 == "cluster"@);
        assert(slots[1].0 == "user"@);
        assert(slots[2].0 == "namespace"@);
        assert(slots[3].0 == "extensions"@);
        lemma_records_read_back::<NamedExtension>(m, "extensions"@, x.extensions);
    }

    proof fn lemma_read_wf(t: Tree) {
        if let Tree::Mapping(m) = t {
            lemma_rest_idempotent(m, context_keys());
            lemma_records_list_wf::<NamedExtension>(m, "extensions"@);
        }
    }

    fn from_value(v: &Value) -> (r: Result<Context, DecodeError>) {
        match v {
            Value::Mapping(m) => {
                proof {
                    lemma_mapping_view(m);
                }
                let cluster = get_text(m, "cluster")?;
                let user = get_text(m, "user")?;
                let namespace = get_opt_text(m, "namespace")?;
                let extensions = get_records(m, "extensions")?;
                let extra = rest_of(m, &["cluster", "user", "namespace", "extensions"]);
                Ok(Context { cluster, user, namespace, extensions, extra })
            },
            _ => Err(field_error("")),
        }
    }

    fn to_value(&self) -> (r: Value) {
        let mut m: Vec<(String, Value)> = Vec::new();
        assert(mapping_view(&m) =~= present(Seq::empty()));
        let g = Ghost(Seq::empty());
        let g = put_slot(&mut m, g, "cluster", Some(Value::Text(self.cluster.clone())));
        let g = put_slot(&mut m, g, "user", Some(Value::Text(self.user.clone())));
        let g = put_slot(&mut m, g, "namespace", opt_text_value(&self.namespace));
        let g = put_slot(&mut m, g, "extensions", records_value(&self.extensions));
        put_all(&mut m, rest_of(&self.extra, &["cluster", "user", "namespace", "extensions"]));
        proof {
            assert(g@ =~= context_slots(self@));
            lemma_mapping_view(&m);
        }
        Value::Mapping(m)
    }
}

// ----- named context -----

/// A context under a name.
#[derive(Debug, PartialEq)]
pub struct NamedContext {
    /// The name `current-context` refers to.
    pub name: String,
    /// The context.
    pub context: Context,
    /// The entries that no field above names, in their order.
    pub extra: Vec<(String, Value)>,
}

pub struct NamedContextView {
    pub name: Seq<char>,
    pub context: ContextView,
    pub extra: Seq<Entry>,
}

impl View for NamedContext {
    type V = NamedContextView;

    open spec fn view(&self) -> NamedContextView {
        NamedContextView {
            name: self.name@,
            context: self.context@,
            extra: mapping_view(&self.extra),
        }
    }
}

pub open spec fn named_context_keys() -> Seq<Seq<char>> {
    keys_view(&["name", "context"])
}

pub open spec fn named_context_slots(x: NamedContextView) -> Seq<(Seq<char>, Option<Tree>)> {
    seq![
        ("name"@, Some(Tree::Text(x.name))),
        ("context"@, Some(Context::write(x.context))),
    ]
}

pub proof fn lemma_named_context_key_literals()
    ensures
        "name"@.len() == 4 && "name"@[0] == 'n' && "name"@[1] == 'a',
        "context"@.len() == 7 && "context"@[0] == 'c' && "context"@[1] == 'o',
{
    reveal_strlit("name");
    reveal_strlit("context");
}

impl Record for NamedContext {
    open spec fn read(t: Tree) -> Option<NamedContextView> {
        match t {
            Tree::Mapping(m) => {
                let name = read_text(m, "name"@);
                let context = read_record(m, "context"@, reader::<Context>());
                if name is Some && context is Some {
                    Some(
                        NamedContextView {
                            name: name->Some_0,
                            context: context->Some_0,
                            extra: rest(m, named_context_keys()),
                        },
                    )
                } else {
                    None
                }
            },
            _ => None,
        }
    }

    open spec fn write(x: NamedContextView) -> Tree {
        Tree::Mapping(present(named_context_slots(x)) + rest(x.extra, named_context_keys()))
    }

    open spec fn wf(x: NamedContextView) -> bool {
        &&& rest(x.extra, named_context_keys()) == x.extra
        &&& Context::wf(x.context)
    }

    proof fn lemma_read_back(x: NamedContextView) {
        let slots = named_context_slots(x);
        lemma_named_context_key_literals();
        assert(slot_keys(slots) =~= named_context_keys());
        lemma_record_read_back(slots, x.extra);
        let m = present(slots) + rest(x.extra, named_context_keys());
        assert(slots[0].0 == "name"@);
        assert(slots[1].0 == "context"@);
        lemma_record_entry_read_back::<Context>(m, "context"@, x.context);
    }

    proof fn lemma_read_wf(t: Tree) {
        if let Tree::Mapping(m) = t {
            lemma_rest_idempotent(m, named_context_keys());
            lemma_record_entry_wf::<Context>(m, "context"@);
        }
    }

    fn from_value(v: &Value) -> (r: Result<NamedContext, DecodeError>) {
        match v {
            Value::Mapping(m) => {
                proof {
                    lemma_mapping_view(m);
                }
                let name = get_text(m, "name")?;
                let context = get_record(m, "context")?;
                let extra = rest_of(m, &["name", "context"]);
                Ok(NamedContext { name, context, extra })
            },
            _ => Err(field_error("")),
        }
    }

    fn to_value(&self) -> (r: Value) {
        let mut m: Vec<(String, Value)> = Vec::new();
        assert(mapping_view(&m) =~= present(Seq::empty()));
        let g = Ghost(Seq::empty());
        let g = put_slot(&mut m, g, "name", Some(Value::Text(self.name.clone())));
        let g = put_slot(&mut m, g, "context", Some(self.context.to_value()));
        put_all(&mut m, rest_of(&self.extra, &["name", "context"]));
        proof {
            assert(g@ =~= named_context_slots(self@));
            lemma_mapping_view(&m);
        }
        Value::Mapping(m)
    }
}

// ----- exec config -----

/// A credential plugin: a command that prints credentials.
#[derive(Debug, PartialEq)]
pub struct ExecConfig {
    /// The plugin protocol's version.
    pub api_version: String,
    /// The command to run.
    pub command: String,
    /// Its arguments.
    pub args: Vec<String>,
    /// Environment variables to set for it.
    pub env: Vec<(String, String)>,
    /// Whether it may prompt.
    pub interactive_mode: Option<String>,
    /// Whether it is told about the cluster.
    pub provide_cluster_info: Option<bool>,
    /// How to install it.
    pub install_hint: Option<String>,
    /// How to install it, under the key that kubectl writes.
    pub install_hint_alt: Option<String>,
    /// The entries that no field above names, in their order.
    pub extra: Vec<(String, Value)>,
}

pub struct ExecConfigView {
    pub api_version: Seq<char>,
    pub command: Seq<char>,
    pub args: Seq<Seq<char>>,
    pub env: Seq<(Seq<char>, Seq<char>)>,
    pub interactive_mode: Option<Seq<char>>,
    pub provide_cluster_info: Option<bool>,
    pub install_hint: Option<Seq<char>>,
    pub install_hint_alt: Option<Seq<char>>,
    pub extra: Seq<Entry>,
}

impl View for ExecConfig {
    type V = ExecConfigView;

    open spec fn view(&self) -> ExecConfigView {
        ExecConfigView {
            api_version: self.api_version@,
            command: self.command@,
            args: texts_view(&self.args),
            env: pairs_view(&self.env),
            interactive_mode: opt_text_view(self.interactive_mode),
            provide_cluster_info: self.provide_cluster_info,
            install_hint: opt_text_view(self.install_hint),
            install_hint_alt: opt_text_view(self.install_hint_alt),
            extra: mapping_view(&self.extra),
        }
    }
}

pub open spec fn exec_config_keys() -> Seq<Seq<char>> {
    keys_view(&["apiVersion", "command", "args", "env", "interactiveMode", "provideClusterInfo", "install_hint", "installHint"])
}

pub open spec fn exec_config_slots(x: ExecConfigView) -> Seq<(Seq<char>, Option<Tree>)> {
    seq![
        ("apiVersion"@, Some(Tree::Text(x.api_version))),
        ("command"@, Some(Tree::Text(x.command))),
        ("args"@, write_texts(x.args)),
        ("env"@, write_map(x.env, text_node())),
        ("interactiveMode"@, write_opt_text(x.interactive_mode)),
        ("provideClusterInfo"@, write_opt_bool(x.provide_cluster_info)),
        ("install_hint"@, write_opt_text(x.install_hint)),
        ("installHint"@, write_opt_text(x.install_hint_alt)),
    ]
}

pub proof fn lemma_exec_config_key_literals()
    ensures
        "apiVersion"@.len() == 10 && "apiVersion"@[0] == 'a' && "apiVersion"@[1] == 'p',
        "command"@.len() == 7 && "command"@[0] == 'c' && "command"@[1] == 'o',
        "args"@.len() == 4 && "args"@[0] == 'a' && "args"@[1] == 'r',
        "env"@.len() == 3 && "env"@[0] == 'e' && "env"@[1] == 'n',
        "interactiveMode"@.len() == 15 && "interactiveMode"@[0] == 'i' && "interactiveMode"@[1] == 'n',
        "provideClusterInfo"@.len() == 18 && "provideClusterInfo"@[0] == 'p' && "provideClusterInfo"@[1] == 'r',
        "install_hint"@.len() == 12 && "install_hint"@[0] == 'i' && "install_hint"@[1] == 'n',
        "installHint"@.len() == 11 && "installHint"@[0] == 'i' && "installHint"@[1] == 'n',
{
    reveal_strlit("apiVersion");
    reveal_strlit("command");
    reveal_strlit("args");
    reveal_strlit("env");
    reveal_strlit("interactiveMode");
    reveal_strlit("provideClusterInfo");
    reveal_strlit("install_hint");
    reveal_strlit("installHint");
}

impl Record for ExecConfig {
    open spec fn read(t: Tree) -> Option<ExecConfigView> {
        match t {
            Tree::Mapping(m) => {
                let api_version = read_text(m, "apiVersion"@);
                let command = read_text(m, "command"@);
                let args = read_texts(m, "args"@);
                let env = read_map(m, "env"@, text_item());
                let interactive_mode = read_opt_text(m, "interactiveMode"@);
                let provide_cluster_info = read_opt_bool(m, "provideClusterInfo"@);
                let install_hint = read_opt_text(m, "install_hint"@);
                let install_hint_alt = read_opt_text(m, "installHint"@);
                if api_version is Some && command is Some && args is Some && env is Some && interactive_mode is Some && provide_cluster_info is Some && install_hint is Some && install_hint_alt is Some {
                    Some(
                        ExecConfigView {
                            api_version: api_version->Some_0,
                            command: command->Some_0,
                            args: args->Some_0,
                            env: env->Some_0,
                            interactive_mode: interactive_mode->Some_0,
                            provide_cluster_info: provide_cluster_info->Some_0,
                            install_hint: install_hint->Some_0,
                            install_hint_alt: install_hint_alt->Some_0,
                            extra: rest(m, exec_config_keys()),
                        },
                    )
                } else {
                    None
                }
            },
            _ => None,
        }
    }

    open spec fn write(x: ExecConfigView) -> Tree {
        Tree::Mapping(present(exec_config_slots(x)) + rest(x.extra, exec_config_keys()))
    }

    open spec fn wf(x: ExecConfigView) -> bool {
        &&& rest(x.extra, exec_config_keys()) == x.extra
    }

    proof fn lemma_read_back(x: ExecConfigView) {
        let slots = exec_config_slots(x);
        lemma_exec_config_key_literals();
        assert(slot_keys(slots) =~= exec_config_keys());
        lemma_record_read_back(slots, x.extra);
        let m = present(slots) + rest(x.extra, exec_config_keys());
        assert(slots[0].0 == "apiVersion"@);
        assert(slots[1].0 == "command"@);
        assert(slots[2].0 == "args"@);
        assert(slots[3].0 == "env"@);
        assert(slots[4].0 == "interactiveMode"@);
        assert(slots[5].0 == "provideClusterInfo"@);
        assert(slots[6].0 == "install_hint"@);
        assert(slots[7].0 == "installHint"@);
        lemma_texts_read_back(m, "args"@, x.args);
        lemma_text_map_read_back(m, "env"@, x.env);
    }

    proof fn lemma_read_wf(t: Tree) {
        if let Tree::Mapping(m) = t {
            lemma_rest_idempotent(m, exec_config_keys());
        }
    }

    fn from_value(v: &Value) -> (r: Result<ExecConfig, DecodeError>) {
        match v {
            Value::Mapping(m) => {
                proof {
                    lemma_mapping_view(m);
                }
                let api_version = get_text(m, "apiVersion")?;
                let command = get_text(m, "command")?;
                let args = get_texts(m, "args")?;
                let env = get_text_map(m, "env")?;
                let interactive_mode = get_opt_text(m, "interactiveMode")?;
                let provide_cluster_info = get_opt_bool(m, "provideClusterInfo")?;
                let install_hint = get_opt_text(m, "install_hint")?;
                let install_hint_alt = get_opt_text(m, "installHint")?;
                let extra = rest_of(m, &["apiVersion", "command", "args", "env", "interactiveMode", "provideClusterInfo", "install_hint", "installHint"]);
                Ok(ExecConfig { api_version, command, args, env, interactive_mode, provide_cluster_info, install_hint, install_hint_alt, extra })
            },
            _ => Err(field_error("")),
        }
    }

    fn to_value(&self) -> (r: Value) {
        let mut m: Vec<(String, Value)> = Vec::new();
        assert(mapping_view(&m) =~= present(Seq::empty()));
        let g = Ghost(Seq::empty());
        let g = put_slot(&mut m, g, "apiVersion", Some(Value::Text(self.api_version.clone())));
        let g = put_slot(&mut m, g, "command", Some(Value::Text(self.command.clone())));
        let g = put_slot(&mut m, g, "args", texts_value(&self.args));
        let g = put_slot(&mut m, g, "env", text_map_value(&self.env));
        let g = put_slot(&mut m, g, "interactiveMode", opt_text_value(&self.interactive_mode));
        let g = put_slot(&mut m, g, "provideClusterInfo", opt_bool_value(self.provide_cluster_info));
        let g = put_slot(&mut m, g, "install_hint", opt_text_value(&self.install_hint));
        let g = put_slot(&mut m, g, "installHint", opt_text_value(&self.install_hint_alt));
        put_all(&mut m, rest_of(&self.extra, &["apiVersion", "command", "args", "env", "interactiveMode", "provideClusterInfo", "install_hint", "installHint"]));
        proof {
            assert(g@ =~= exec_config_slots(self@));
            lemma_mapping_view(&m);
        }
        Value::Mapping(m)
    }
}

// ----- auth provider -----

/// An authentication provider and its settings.
#[derive(Debug, PartialEq)]
pub struct AuthProvider {
    /// The provider's name.
    pub name: String,
    /// Its settings.
    pub config: Vec<(String, String)>,
    /// The entries that no field above names, in their order.
    pub extra: Vec<(String, Value)>,
}

pub struct AuthProviderView {
    pub name: Seq<char>,
    pub config: Seq<(Seq<char>, Seq<char>)>,
    pub extra: Seq<Entry>,
}

impl View for AuthProvider {
    type V = AuthProviderView;

    open spec fn view(&self) -> AuthProviderView {
        AuthProviderView {
            name: self.name@,
            config: pairs_view(&self.config),
            extra: mapping_view(&self.extra),
        }
    }
}

pub open spec fn auth_provider_keys() -> Seq<Seq<char>> {
    keys_view(&["name", "config"])
}

pub open spec fn auth_provider_slots(x: AuthProviderView) -> Seq<(Seq<char>, Option<Tree>)> {
    seq![
        ("name"@, Some(Tree::Text(x.name))),
        ("config"@, write_map(x.config, text_node())),
    ]
}

pub proof fn lemma_auth_provider_key_literals()
    ensures
        "name"@.len() == 4 && "name"@[0] == 'n' && "name"@[1] == 'a',
        "config"@.len() == 6 && "config"@[0] == 'c' && "config"@[1] == 'o',
{
    reveal_strlit("name");
    reveal_strlit("config");
}

impl Record for AuthProvider {
    open spec fn read(t: Tree) -> Option<AuthProviderView> {
        match t {
            Tree::Mapping(m) => {
                let name = read_text(m, "name"@);
                let config = read_map(m, "config"@, text_item());
                if name is Some && config is Some {
                    Some(
                        AuthProviderView {
                            name: name->Some_0,
                            config: config->Some_0,
                            extra: rest(m, auth_provider_keys()),
                        },
                    )
                } else {
                    None
                }
            },
            _ => None,
        }
    }

    open spec fn write(x: AuthProviderView) -> Tree {
        Tree::Mapping(present(auth_provider_slots(x)) + rest(x.extra, auth_provider_keys()))
    }

    open spec fn wf(x: AuthProviderView) -> bool {
        &&& rest(x.extra, auth_provider_keys()) == x.extra
    }

    proof fn lemma_read_back(x: AuthProviderView) {
        let slots = auth_provider_slots(x);
        lemma_auth_provider_key_literals();
        assert(slot_keys(slots) =~= auth_provider_keys());
        lemma_record_read_back(slots, x.extra);
        let m = present(slots) + rest(x.extra, auth_provider_keys());
        assert(slots[0].0 == "name"@);
        assert(slots[1].0 == "config"@);
        lemma_text_map_read_back(m, "config"@, x.config);
    }

    proof fn lemma_read_wf(t: Tree) {
        if let Tree::Mapping(m) = t {
            lemma_rest_idempotent(m, auth_provider_keys());
        }
    }

    fn from_value(v: &Value) -> (r: Result<AuthProvider, DecodeError>) {
        match v {
            Value::Mapping(m) => {
                proof {
                    lemma_mapping_view(m);
                }
                let name = get_text(m, "name")?;
                let config = get_text_map(m, "config")?;
                let extra = rest_of(m, &["name", "config"]);
                Ok(AuthProvider { name, config, extra })
            },
            _ => Err(field_error("")),
        }
    }

    fn to_value(&self) -> (r: Value) {
        let mut m: Vec<(String, Value)> = Vec::new();
        assert(mapping_view(&m) =~= present(Seq::empty()));
        let g = Ghost(Seq::empty());
        let g = put_slot(&mut m, g, "name", Some(Value::Text(self.name.clone())));
        let g = put_slot(&mut m, g, "config", text_map_value(&self.config));
        put_all(&mut m, rest_of(&self.extra, &["name", "config"]));
        proof {
            assert(g@ =~= auth_provider_slots(self@));
            lemma_mapping_view(&m);
        }
        Value::Mapping(m)
    }
}

// ----- user -----

/// How to authenticate. Any combination of mechanisms may be set.
#[derive(Debug, PartialEq)]
pub struct User {
    /// A bearer token.
    pub token: Option<String>,
    /// A file holding a bearer token.
    pub token_file: Option<String>,
    /// A basic-auth user name.
    pub username: Option<String>,
    /// A basic-auth password.
    pub password: Option<String>,
    /// Path of a client certificate.
    pub client_certificate: Option<String>,
    /// A client certificate, inline.
    pub client_certificate_data: Option<String>,
    /// Path of a client key.
    pub client_key: Option<String>,
    /// A client key, inline.
    pub client_key_data: Option<String>,
    /// A credential plugin, under the key `exec`.
    pub exec_config: Option<ExecConfig>,
    /// An authentication provider.
    pub auth_provider: Option<AuthProvider>,
    /// A user to act as.
    pub impersonate: Option<String>,
    /// Groups to act as.
    pub impersonate_groups: Vec<String>,
    /// Extra attributes of the user acted as.
    pub impersonate_user_extra: Vec<(String, Vec<String>)>,
    /// Vendor extensions.
    pub extensions: Vec<NamedExtension>,
    /// The entries that no field above names, in their order.
    pub extra: Vec<(String, Value)>,
}

pub struct UserView {
    pub token: Option<Seq<char>>,
    pub token_file: Option<Seq<char>>,
    pub username: Option<Seq<char>>,
    pub password: Option<Seq<char>>,
    pub client_certificate: Option<Seq<char>>,
    pub client_certificate_data: Option<Seq<char>>,
    pub client_key: Option<Seq<char>>,
    pub client_key_data: Option<Seq<char>>,
    pub exec_config: Option<ExecConfigView>,
    pub auth_provider: Option<AuthProviderView>,
    pub impersonate: Option<Seq<char>>,
    pub impersonate_groups: Seq<Seq<char>>,
    pub impersonate_user_extra: Seq<(Seq<char>, Seq<Seq<char>>)>,
    pub extensions: Seq<NamedExtensionView>,
    pub extra: Seq<Entry>,
}

impl View for User {
    type V = UserView;

    open spec fn view(&self) -> UserView {
        UserView {
            token: opt_text_view(self.token),
            token_file: opt_text_view(self.token_file),
            username: opt_text_view(self.username),
            password: opt_text_view(self.password),
            client_certificate: opt_text_view(self.client_certificate),
            client_certificate_data: opt_text_view(self.client_certificate_data),
            client_key: opt_text_view(self.client_key),
            client_key_data: opt_text_view(self.client_key_data),
            exec_config: match self.exec_config { Some(x) => Some(x@), None => None },
            auth_provider: match self.auth_provider { Some(x) => Some(x@), None => None },
            impersonate: opt_text_view(self.impersonate),
            impersonate_groups: texts_view(&self.impersonate_groups),
            impersonate_user_extra: groups_view(&self.impersonate_user_extra),
            extensions: records_view(&self.extensions),
            extra: mapping_view(&self.extra),
        }
    }
}

pub open spec fn user_keys() -> Seq<Seq<char>> {
    keys_view(&["token", "token-file", "username", "password", "client-certificate", "client-certificate-data", "client-key", "client-key-data", "exec", "auth-provider", "impersonate", "impersonate-groups", "impersonate-user-extra", "extensions"])
}

pub open spec fn user_slots(x: UserView) -> Seq<(Seq<char>, Option<Tree>)> {
    seq![
        ("token"@, write_opt_text(x.token)),
        ("token-file"@, write_opt_text(x.token_file)),
        ("username"@, write_opt_text(x.username)),
        ("password"@, write_opt_text(x.password)),
        ("client-certificate"@, write_opt_text(x.client_certificate)),
        ("client-certificate-data"@, write_opt_text(x.client_certificate_data)),
        ("client-key"@, write_opt_text(x.client_key)),
        ("client-key-data"@, write_opt_text(x.client_key_data)),
        ("exec"@, write_opt_record(x.exec_config, writer::<ExecConfig>())),
        ("auth-provider"@, write_opt_record(x.auth_provider, writer::<AuthProvider>())),
        ("impersonate"@, write_opt_text(x.impersonate)),
        ("impersonate-groups"@, write_texts(x.impersonate_groups)),
        ("impersonate-user-extra"@, write_map(x.impersonate_user_extra, texts_node())),
        ("extensions"@, write_list(x.extensions, writer::<NamedExtension>())),
    ]
}

pub proof fn lemma_user_key_literals()
    ensures
        "token"@.len() == 5 && "token"@[0] == 't' && "token"@[1] == 'o',
        "token-file"@.len() == 10 && "token-file"@[0] == 't' && "token-file"@[1] == 'o',
        "username"@.len() == 8 && "username"@[0] == 'u' && "username"@[1] == 's',
        "password"@.len() == 8 && "password"@[0] == 'p' && "password"@[1] == 'a',
        "client-certificate"@.len() == 18 && "client-certificate"@[0] == 'c' && "client-certificate"@[1] == 'l',
        "client-certificate-data"@.len() == 23 && "client-certificate-data"@[0] == 'c' && "client-certificate-data"@[1] == 'l',
        "client-key"@.len() == 10 && "client-key"@[0] == 'c' && "client-key"@[1] == 'l',
        "client-key-data"@.len() == 15 && "client-key-data"@[0] == 'c' && "client-key-data"@[1] == 'l',
        "exec"@.len() == 4 && "exec"@[0] == 'e' && "exec"@[1] == 'x',
        "auth-provider"@.len() == 13 && "auth-provider"@[0] == 'a' && "auth-provider"@[1] == 'u',
        "impersonate"@.len() == 11 && "impersonate"@[0] == 'i' && "impersonate"@[1] == 'm',
        "impersonate-groups"@.len() == 18 && "impersonate-groups"@[0] == 'i' && "impersonate-groups"@[1] == 'm',
        "impersonate-user-extra"@.len() == 22 && "impersonate-user-extra"@[0] == 'i' && "impersonate-user-extra"@[1] == 'm',
        "extensions"@.len() == 10 && "extensions"@[0] == 'e' && "extensions"@[1] == 'x',
{
    reveal_strlit("token");
    reveal_strlit("token-file");
    reveal_strlit("username");
    reveal_strlit("password");
    reveal_strlit("client-certificate");
    reveal_strlit("client-certificate-data");
    reveal_strlit("client-key");
    reveal_strlit("client-key-data");
    reveal_strlit("exec");
    reveal_strlit("auth-provider");
    reveal_strlit("impersonate");
    reveal_strlit("impersonate-groups");
    reveal_strlit("impersonate-user-extra");
    reveal_strlit("extensions");
}

impl Record for User {
    open spec fn read(t: Tree) -> Option<UserView> {
        match t {
            Tree::Mapping(m) => {
                let token = read_opt_text(m, "token"@);
                let token_file = read_opt_text(m, "token-file"@);
                let username = read_opt_text(m, "username"@);
                let password = read_opt_text(m, "password"@);
                let client_certificate = read_opt_text(m, "client-certificate"@);
                let client_certificate_data = read_opt_text(m, "client-certificate-data"@);
                let client_key = read_opt_text(m, "client-key"@);
                let client_key_data = read_opt_text(m, "client-key-data"@);
                let exec_config = read_opt_record(m, "exec"@, reader::<ExecConfig>());
                let auth_provider = read_opt_record(m, "auth-provider"@, reader::<AuthProvider>());
                let impersonate = read_opt_text(m, "impersonate"@);
                let impersonate_groups = read_texts(m, "impersonate-groups"@);
                let impersonate_user_extra = read_map(m, "impersonate-user-extra"@, texts_item());
                let extensions = read_list(m, "extensions"@, reader::<NamedExtension>());
                if token is Some && token_file is Some && username is Some && password is Some && client_certificate is Some && client_certificate_data is Some && client_key is Some && client_key_data is Some && exec_config is Some && auth_provider is Some && impersonate is Some && impersonate_groups is Some && impersonate_user_extra is Some && extensions is Some {
                    Some(
                        UserView {
                            token: token->Some_0,
                            token_file: token_file->Some_0,
                            username: username->Some_0,
                            password: password->Some_0,
                            client_certificate: client_certificate->Some_0,
                            client_certificate_data: client_certificate_data->Some_0,
                            client_key: client_key->Some_0,
                            client_key_data: client_key_data->Some_0,
                            exec_config: exec_config->Some_0,
                            auth_provider: auth_provider->Some_0,
                            impersonate: impersonate->Some_0,
                            impersonate_groups: impersonate_groups->Some_0,
                            impersonate_user_extra: impersonate_user_extra->Some_0,
                            extensions: extensions->Some_0,
                            extra: rest(m, user_keys()),
                        },
                    )
                } else {
                    None
                }
            },
            _ => None,
        }
    }

    open spec fn write(x: UserView) -> Tree {
        Tree::Mapping(present(user_slots(x)) + rest(x.extra, user_keys()))
    }

    open spec fn wf(x: UserView) -> bool {
        &&& rest(x.extra, user_keys()) == x.extra
        &&& (x.exec_config matches Some(y) ==> ExecConfig::wf(y))
        &&& (x.auth_provider matches Some(y) ==> AuthProvider::wf(y))
        &&& all_wf::<NamedExtension>(x.extensions)
    }

    proof fn lemma_read_back(x: UserView) {
        let slots = user_slots(x);
        lemma_user_key_literals();
        assert(slot_keys(slots) =~= user_keys());
        lemma_record_read_back(slots, x.extra);
        let m = present(slots) + rest(x.extra, user_keys());
        assert(slots[0].0 == "token"@);
        assert(slots[1].0 == "token-file"@);
        assert(slots[2].0 == "username"@);
        assert(slots[3].0 == "password"@);
        assert(slots[4].0 == "client-certificate"@);
        assert(slots[5].0 == "client-certificate-data"@);
        assert(slots[6].0 == "client-key"@);
        assert(slots[7].0 == "client-key-data"@);
        assert(slots[8].0 == "exec"@);
        assert(slots[9].0 == "auth-provider"@);
        assert(slots[10].0 == "impersonate"@);
        assert(slots[11].0 == "impersonate-groups"@);
        assert(slots[12].0 == "impersonate-user-extra"@);
        assert(slots[13].0 == "extensions"@);
        lemma_opt_record_read_back::<ExecConfig>(m, "exec"@, x.exec_config);
        lemma_opt_record_read_back::<AuthProvider>(m, "auth-provider"@, x.auth_provider);
        lemma_texts_read_back(m, "impersonate-groups"@, x.impersonate_groups);
        lemma_text_groups_read_back(m, "impersonate-user-extra"@, x.impersonate_user_extra);
        lemma_records_read_back::<NamedExtension>(m, "extensions"@, x.extensions);
    }

    proof fn lemma_read_wf(t: Tree) {
        if let Tree::Mapping(m) = t {
            lemma_rest_idempotent(m, user_keys());
            lemma_opt_record_wf::<ExecConfig>(m, "exec"@);
            lemma_opt_record_wf::<AuthProvider>(m, "auth-provider"@);
            lemma_records_list_wf::<NamedExtension>(m, "extensions"@);
        }
    }

    fn from_value(v: &Value) -> (r: Result<User, DecodeError>) {
        match v {
            Value::Mapping(m) => {
                proof {
                    lemma_mapping_view(m);
                }
                let token = get_opt_text(m, "token")?;
                let token_file = get_opt_text(m, "token-file")?;
                let username = get_opt_text(m, "username")?;
                let password = get_opt_text(m, "password")?;
                let client_certificate = get_opt_text(m, "client-certificate")?;
                let client_certificate_data = get_opt_text(m, "client-certificate-data")?;
                let client_key = get_opt_text(m, "client-key")?;
                let client_key_data = get_opt_text(m, "client-key-data")?;
                let exec_config = get_opt_record(m, "exec")?;
                let auth_provider = get_opt_record(m, "auth-provider")?;
                let impersonate = get_opt_text(m, "impersonate")?;
                let impersonate_groups = get_texts(m, "impersonate-groups")?;
                let impersonate_user_extra = get_text_groups(m, "impersonate-user-extra")?;
                let extensions = get_records(m, "extensions")?;
                let extra = rest_of(m, &["token", "token-file", "username", "password", "client-certificate", "client-certificate-data", "client-key", "client-key-data", "exec", "auth-provider", "impersonate", "impersonate-groups", "impersonate-user-extra", "extensions"]);
                Ok(User { token, token_file, username, password, client_certificate, client_certificate_data, client_key, client_key_data, exec_config, auth_provider, impersonate, impersonate_groups, impersonate_user_extra, extensions, extra })
            },
            _ => Err(field_error("")),
        }
    }

    fn to_value(&self) -> (r: Value) {
        let mut m: Vec<(String, Value)> = Vec::new();
        assert(mapping_view(&m) =~= present(Seq::empty()));
        let g = Ghost(Seq::empty());
        let g = put_slot(&mut m, g, "token", opt_text_value(&self.token));
        let g = put_slot(&mut m, g, "token-file", opt_text_value(&self.token_file));
        let g = put_slot(&mut m, g, "username", opt_text_value(&self.username));
        let g = put_slot(&mut m, g, "password", opt_text_value(&self.password));
        let g = put_slot(&mut m, g, "client-certificate", opt_text_value(&self.client_certificate));
        let g = put_slot(&mut m, g, "client-certificate-data", opt_text_value(&self.client_certificate_data));
        let g = put_slot(&mut m, g, "client-key", opt_text_value(&self.client_key));
        let g = put_slot(&mut m, g, "client-key-data", opt_text_value(&self.client_key_data));
        let g = put_slot(&mut m, g, "exec", opt_record_value(&self.exec_config));
        let g = put_slot(&mut m, g, "auth-provider", opt_record_value(&self.auth_provider));
        let g = put_slot(&mut m, g, "impersonate", opt_text_value(&self.impersonate));
        let g = put_slot(&mut m, g, "impersonate-groups", texts_value(&self.impersonate_groups));
        let g = put_slot(&mut m, g, "impersonate-user-extra", text_groups_value(&self.impersonate_user_extra));
        let g = put_slot(&mut m, g, "extensions", records_value(&self.extensions));
        put_all(&mut m, rest_of(&self.extra, &["token", "token-file", "username", "password", "client-certificate", "client-certificate-data", "client-key", "client-key-data", "exec", "auth-provider", "impersonate", "impersonate-groups", "impersonate-user-extra", "extensions"]));
        proof {
            assert(g@ =~= user_slots(self@));
            lemma_mapping_view(&m);
        }
        Value::Mapping(m)
    }
}

// ----- named user -----

/// A user under a name.
#[derive(Debug, PartialEq)]
pub struct NamedUser {
    /// The name contexts refer to.
    pub name: String,
    /// The user.
    pub user: User,
    /// The entries that no field above names, in their order.
    pub extra: Vec<(String, Value)>,
}

pub struct NamedUserView {
    pub name: Seq<char>,
    pub user: UserView,
    pub extra: Seq<Entry>,
}

impl View for NamedUser {
    type V = NamedUserView;

    open spec fn view(&self) -> NamedUserView {
        NamedUserView {
            name: self.name@,
            user: self.user@,
            extra: mapping_view(&self.extra),
        }
    }
}

pub open spec fn named_user_keys() -> Seq<Seq<char>> {
    keys_view(&["name", "user"])
}

pub open spec fn named_user_slots(x: NamedUserView) -> Seq<(Seq<char>, Option<Tree>)> {
    seq![
        ("name"@, Some(Tree::Text(x.name))),
        ("user"@, Some(User::write(x.user))),
    ]
}

pub proof fn lemma_named_user_key_literals()
    ensures
        "name"@.len() == 4 && "name"@[0] == 'n' && "name"@[1] == 'a',
        "user"@.len() == 4 && "user"@[0] == 'u' && "user"@[1] == 's',
{
    reveal_strlit("name");
    reveal_strlit("user");
}

impl Record for NamedUser {
    open spec fn read(t: Tree) -> Option<NamedUserView> {
        match t {
            Tree::Mapping(m) => {
                let name = read_text(m, "name"@);
                let user = read_record(m, "user"@, reader::<User>());
                if name is Some && user is Some {
                    Some(
                        NamedUserView {
                            name: name->Some_0,
                            user: user->Some_0,
                            extra: rest(m, named_user_keys()),
                        },
                    )
                } else {
                    None
                }
            },
            _ => None,
        }
    }

    open spec fn write(x: NamedUserView) -> Tree {
        Tree::Mapping(present(named_user_slots(x)) + rest(x.extra, named_user_keys()))
    }

    open spec fn wf(x: NamedUserView) -> bool {
        &&& rest(x.extra, named_user_keys()) == x.extra
        &&& User::wf(x.user)
    }

    proof fn lemma_read_back(x: NamedUserView) {
        let slots = named_user_slots(x);
        lemma_named_user_key_literals();
        assert(slot_keys(slots) =~= named_user_keys());
        lemma_record_read_back(slots, x.extra);
        let m = present(slots) + rest(x.extra, named_user_keys());
        assert(slots[0].0 == "name"@);
        assert(slots[1].0 == "user"@);
        lemma_record_entry_read_back::<User>(m, "user"@, x.user);
    }

    proof fn lemma_read_wf(t: Tree) {
        if let Tree::Mapping(m) = t {
            lemma_rest_idempotent(m, named_user_keys());
            lemma_record_entry_wf::<User>(m, "user"@);
        }
    }

    fn from_value(v: &Value) -> (r: Result<NamedUser, DecodeError>) {
        match v {
            Value::Mapping(m) => {
                proof {
                    lemma_mapping_view(m);
                }
                let name = get_text(m, "name")?;
                let user = get_record(m, "user")?;
                let extra = rest_of(m, &["name", "user"]);
                Ok(NamedUser { name, user, extra })
            },
            _ => Err(field_error("")),
        }
    }

    fn to_value(&self) -> (r: Value) {
        let mut m: Vec<(String, Value)> = Vec::new();
        assert(mapping_view(&m) =~= present(Seq::empty()));
        let g = Ghost(Seq::empty());
        let g = put_slot(&mut m, g, "name", Some(Value::Text(self.name.clone())));
        let g = put_slot(&mut m, g, "user", Some(self.user.to_value()));
        put_all(&mut m, rest_of(&self.extra, &["name", "user"]));
        proof {
            assert(g@ =~= named_user_slots(self@));
            lemma_mapping_view(&m);
        }
        Value::Mapping(m)
    }
}

// ----- kubeconfig -----

/// A Kubernetes client configuration document.
#[derive(Debug, PartialEq)]
pub struct Kubeconfig {
    /// The document's version; any text is kept.
    pub api_version: String,
    /// The document's kind; any text is kept.
    pub kind: String,
    /// Free-form preferences.
    pub preferences: Option<Preferences>,
    /// The clusters, in order; names may repeat.
    pub clusters: Vec<NamedCluster>,
    /// The users, in order; names may repeat.
    pub users: Vec<NamedUser>,
    /// The contexts, in order; names may repeat.
    pub contexts: Vec<NamedContext>,
    /// The context in use; not checked against the contexts.
    pub current_context: Option<String>,
    /// Vendor extensions.
    pub extensions: Vec<NamedExtension>,
    /// The entries that no field above names, in their order.
    pub extra: Vec<(String, Value)>,
}

pub struct KubeconfigView {
    pub api_version: Seq<char>,
    pub kind: Seq<char>,
    pub preferences: Option<PreferencesView>,
    pub clusters: Seq<NamedClusterView>,
    pub users: Seq<NamedUserView>,
    pub contexts: Seq<NamedContextView>,
    pub current_context: Option<Seq<char>>,
    pub extensions: Seq<NamedExtensionView>,
    pub extra: Seq<Entry>,
}

impl View for Kubeconfig {
    type V = KubeconfigView;

    open spec fn view(&self) -> KubeconfigView {
        KubeconfigView {
            api_version: self.api_version@,
            kind: self.kind@,
            preferences: match self.preferences { Some(x) => Some(x@), None => None },
            clusters: records_view(&self.clusters),
            users: records_view(&self.users),
            contexts: records_view(&self.contexts),
            current_context: opt_text_view(self.current_context),
            extensions: records_view(&self.extensions),
            extra: mapping_view(&self.extra),
        }
    }
}

pub open spec fn kubeconfig_keys() -> Seq<Seq<char>> {
    keys_view(&["apiVersion", "kind", "preferences", "clusters", "users", "contexts", "current-context", "extensions"])
}

pub open spec fn kubeconfig_slots(x: KubeconfigView) -> Seq<(Seq<char>, Option<Tree>)> {
    seq![
        ("apiVersion"@, Some(Tree::Text(x.api_version))),
        ("kind"@, Some(Tree::Text(x.kind))),
        ("preferences"@, write_opt_record(x.preferences, writer::<Preferences>())),
        ("clusters"@, write_list(x.clusters, writer::<NamedCluster>())),
        ("users"@, write_list(x.users, writer::<NamedUser>())),
        ("contexts"@, write_list(x.contexts, writer::<NamedContext>())),
        ("current-context"@, write_opt_text(x.current_context)),
        ("extensions"@, write_list(x.extensions, writer::<NamedExtension>())),
    ]
}

pub proof fn lemma_kubeconfig_key_literals()
    ensures
        "apiVersion"@.len() == 10 && "apiVersion"@[0] == 'a' && "apiVersion"@[1] == 'p',
        "kind"@.len() == 4 && "kind"@[0] == 'k' && "kind"@[1] == 'i',
        "preferences"@.len() == 11 && "preferences"@[0] == 'p' && "preferences"@[1] == 'r',
        "clusters"@.len() == 8 && "clusters"@[0] == 'c' && "clusters"@[1] == 'l',
        "users"@.len() == 5 && "users"@[0] == 'u' && "users"@[1] == 's',
        "contexts"@.len() == 8 && "contexts"@[0] == 'c' && "contexts"@[1] == 'o',
        "current-context"@.len() == 15 && "current-context"@[0] == 'c' && "current-context"@[1] == 'u',
        "extensions"@.len() == 10 && "extensions"@[0] == 'e' && "extensions"@[1] == 'x',
{
    reveal_strlit("apiVersion");
    reveal_strlit("kind");
    reveal_strlit("preferences");
    reveal_strlit("clusters");
    reveal_strlit("users");
    reveal_strlit("contexts");
    reveal_strlit("current-context");
    reveal_strlit("extensions");
}

impl Record for Kubeconfig {
    open spec fn read(t: Tree) -> Option<KubeconfigView> {
        match t {
            Tree::Mapping(m) => {
                let api_version = read_text(m, "apiVersion"@);
                let kind = read_text(m, "kind"@);
                let preferences = read_opt_record(m, "preferences"@, reader::<Preferences>());
                let clusters = read_list(m, "clusters"@, reader::<NamedCluster>());
                let users = read_list(m, "users"@, reader::<NamedUser>());
                let contexts = read_list(m, "contexts"@, reader::<NamedContext>());
                let current_context = read_opt_text(m, "current-context"@);
                let extensions = read_list(m, "extensions"@, reader::<NamedExtension>());
                if api_version is Some && kind is Some && preferences is Some && clusters is Some && users is Some && contexts is Some && current_context is Some && extensions is Some {
                    Some(
                        KubeconfigView {
                            api_version: api_version->Some_0,
                            kind: kind->Some_0,
                            preferences: preferences->Some_0,
                            clusters: clusters->Some_0,
                            users: users->Some_0,
                            contexts: contexts->Some_0,
                            current_context: current_context->Some_0,
                            extensions: extensions->Some_0,
                            extra: rest(m, kubeconfig_keys()),
                        },
                    )
                } else {
                    None
                }
            },
            _ => None,
        }
    }

    open spec fn write(x: KubeconfigView) -> Tree {
        Tree::Mapping(present(kubeconfig_slots(x)) + rest(x.extra, kubeconfig_keys()))
    }

    open spec fn wf(x: KubeconfigView) -> bool {
        &&& rest(x.extra, kubeconfig_keys()) == x.extra
        &&& (x.preferences matches Some(y) ==> Preferences::wf(y))
        &&& all_wf::<NamedCluster>(x.clusters)
        &&& all_wf::<NamedUser>(x.users)
        &&& all_wf::<NamedContext>(x.contexts)
        &&& all_wf::<NamedExtension>(x.extensions)
    }

    proof fn lemma_read_back(x: KubeconfigView) {
        let slots = kubeconfig_slots(x);
        lemma_kubeconfig_key_literals();
        assert(slot_keys(slots) =~= kubeconfig_keys());
        lemma_record_read_back(slots, x.extra);
        let m = present(slots) + rest(x.extra, kubeconfig_keys());
        assert(slots[0].0 == "apiVersion"@);
        assert(slots[1].0 == "kind"@);
        assert(slots[2].0 == "preferences"@);
        assert(slots[3].0 == "clusters"@);
        assert(slots[4].0 == "users"@);
        assert(slots[5].0 == "contexts"@);
        assert(slots[6].0 == "current-context"@);
        assert(slots[7].0 == "extensions"@);
        lemma_opt_record_read_back::<Preferences>(m, "preferences"@, x.preferences);
        lemma_records_read_back::<NamedCluster>(m, "clusters"@, x.clusters);
        lemma_records_read_back::<NamedUser>(m, "users"@, x.users);
        lemma_records_read_back::<NamedContext>(m, "contexts"@, x.contexts);
        lemma_records_read_back::<NamedExtension>(m, "extensions"@, x.extensions);
    }

    proof fn lemma_read_wf(t: Tree) {
        if let Tree::Mapping(m) = t {
            lemma_rest_idempotent(m, kubeconfig_keys());
            lemma_opt_record_wf::<Preferences>(m, "preferences"@);
            lemma_records_list_wf::<NamedCluster>(m, "clusters"@);
            lemma_records_list_wf::<NamedUser>(m, "users"@);
            lemma_records_list_wf::<NamedContext>(m, "contexts"@);
            lemma_records_list_wf::<NamedExtension>(m, "extensions"@);
        }
    }

    fn from_value(v: &Value) -> (r: Result<Kubeconfig, DecodeError>) {
        match v {
            Value::Mapping(m) => {
                proof {
                    lemma_mapping_view(m);
                }
                let api_version = get_text(m, "apiVersion")?;
                let kind = get_text(m, "kind")?;
                let preferences = get_opt_record(m, "preferences")?;
                let clusters = get_records(m, "clusters")?;
                let users = get_records(m, "users")?;
                let contexts = get_records(m, "contexts")?;
                let current_context = get_opt_text(m, "current-context")?;
                let extensions = get_records(m, "extensions")?;
                let extra = rest_of(m, &["apiVersion", "kind", "preferences", "clusters", "users", "contexts", "current-context", "extensions"]);
                Ok(Kubeconfig { api_version, kind, preferences, clusters, users, contexts, current_context, extensions, extra })
            },
            _ => Err(field_error("")),
        }
    }

    fn to_value(&self) -> (r: Value) {
        let mut m: Vec<(String, Value)> = Vec::new();
        assert(mapping_view(&m) =~= present(Seq::empty()));
        let g = Ghost(Seq::empty());
        let g = put_slot(&mut m, g, "apiVersion", Some(Value::Text(self.api_version.clone())));
        let g = put_slot(&mut m, g, "kind", Some(Value::Text(self.kind.clone())));
        let g = put_slot(&mut m, g, "preferences", opt_record_value(&self.preferences));
        let g = put_slot(&mut m, g, "clusters", records_value(&self.clusters));
        let g = put_slot(&mut m, g, "users", records_value(&self.users));
        let g = put_slot(&mut m, g, "contexts", records_value(&self.contexts));
        let g = put_slot(&mut m, g, "current-context", opt_text_value(&self.current_context));
        let g = put_slot(&mut m, g, "extensions", records_value(&self.extensions));
        put_all(&mut m, rest_of(&self.extra, &["apiVersion", "kind", "preferences", "clusters", "users", "contexts", "current-context", "extensions"]));
        proof {
            assert(g@ =~= kubeconfig_slots(self@));
            lemma_mapping_view(&m);
        }
        Value::Mapping(m)
    }
}

} // verus!
