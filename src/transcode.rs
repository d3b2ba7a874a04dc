//! What holds of reading a kubeconfig document and writing it back.
use vstd::prelude::*;
use crate::value::{Tree, Entry, lookup, rest, slot_keys, lemma_record_read_back, lemma_rest_idempotent};
use crate::codec::Record;
use crate::kubeconfig::{
    Kubeconfig, KubeconfigView, User, kubeconfig_keys, kubeconfig_slots, user_keys, user_slots,
    lemma_kubeconfig_key_literals, lemma_user_key_literals,
    NamedExtension, named_extension_keys, named_extension_slots, lemma_named_extension_key_literals, Preferences, preferences_keys, preferences_slots, Cluster, cluster_keys, cluster_slots, lemma_cluster_key_literals, NamedCluster, named_cluster_keys, named_cluster_slots, lemma_named_cluster_key_literals, Context, context_keys, context_slots, lemma_context_key_literals, NamedContext, named_context_keys, named_context_slots, lemma_named_context_key_literals, ExecConfig, exec_config_keys, exec_config_slots, lemma_exec_config_key_literals, AuthProvider, auth_provider_keys, auth_provider_slots, lemma_auth_provider_key_literals, NamedUser, named_user_keys, named_user_slots, lemma_named_user_key_literals,
};

verus! {

/// Reading a document, writing what was read and reading that again gives
/// the same document: writing loses nothing that reading kept.
pub proof fn lemma_read_write_read(t: Tree)
    requires
        Kubeconfig::read(t) is Some,
    ensures
        Kubeconfig::read(Kubeconfig::write(Kubeconfig::read(t)->Some_0)) == Kubeconfig::read(t),
{
    Kubeconfig::lemma_read_wf(t);
    Kubeconfig::lemma_read_back(Kubeconfig::read(t)->Some_0);
}

/// The same holds of every record of the model on its own (a cluster, a
/// context, a user, a credential plugin, ...): what reading kept, writing
/// gives back, unknown entries included.
pub proof fn lemma_record_read_write_read<T: Record>(t: Tree)
    requires
        T::read(t) is Some,
    ensures
        T::read(T::write(T::read(t)->Some_0)) == T::read(t),
{
    T::lemma_read_wf(t);
    T::lemma_read_back(T::read(t)->Some_0);
}

/// Every well-formed document (in particular every document that reading
/// produced) reads back from what it is written as.
pub proof fn lemma_write_read(d: KubeconfigView)
    requires
        Kubeconfig::wf(d),
    ensures
        Kubeconfig::read(Kubeconfig::write(d)) == Some(d),
{
    Kubeconfig::lemma_read_back(d);
}

/// The entries of a user that the model does not name are written back
/// unchanged and in their order.
pub proof fn lemma_user_unknown_entries_kept(m: Seq<Entry>)
    requires
        User::read(Tree::Mapping(m)) is Some,
    ensures
        User::write(User::read(Tree::Mapping(m))->Some_0) matches Tree::Mapping(w) && rest(
            w,
            user_keys(),
        ) == rest(m, user_keys()),
{
    let u = User::read(Tree::Mapping(m))->Some_0;
    let slots = user_slots(u);
    lemma_user_key_literals();
    assert(slot_keys(slots) =~= user_keys());
    lemma_record_read_back(slots, u.extra);
    lemma_rest_idempotent(m, user_keys());
}

/// The top-level entries of a document that the model does not name are
/// written back unchanged and in their order.
pub proof fn lemma_document_unknown_entries_kept(m: Seq<Entry>)
    requires
        Kubeconfig::read(Tree::Mapping(m)) is Some,
    ensures
        Kubeconfig::write(Kubeconfig::read(Tree::Mapping(m))->Some_0) matches Tree::Mapping(w)
            && rest(w, kubeconfig_keys()) == rest(m, kubeconfig_keys()),
{
    let d = Kubeconfig::read(Tree::Mapping(m))->Some_0;
    let slots = kubeconfig_slots(d);
    lemma_kubeconfig_key_literals();
    assert(slot_keys(slots) =~= kubeconfig_keys());
    lemma_record_read_back(slots, d.extra);
    lemma_rest_idempotent(m, kubeconfig_keys());
}

/// The entries of a named extension that the model does not name are written back
/// unchanged and in their order.
pub proof fn lemma_named_extension_unknown_entries_kept(m: Seq<Entry>)
    requires
        NamedExtension::read(Tree::Mapping(m)) is Some,
    ensures
        NamedExtension::write(NamedExtension::read(Tree::Mapping(m))->Some_0) matches Tree::Mapping(w) && rest(
            w,
            named_extension_keys(),
        ) == rest(m, named_extension_keys()),
{
    let x = NamedExtension::read(Tree::Mapping(m))->Some_0;
    let slots = named_extension_slots(x);
    lemma_named_extension_key_literals();
    assert(slot_keys(slots) =~= named_extension_keys());
    lemma_record_read_back(slots, x.extra);
    lemma_rest_idempotent(m, named_extension_keys());
}

/// The entries of the preferences that the model does not name are written back
/// unchanged and in their order.
pub proof fn lemma_preferences_unknown_entries_kept(m: Seq<Entry>)
    requires
        Preferences::read(Tree::Mapping(m)) is Some,
    ensures
        Preferences::write(Preferences::read(Tree::Mapping(m))->Some_0) matches Tree::Mapping(w) && rest(
            w,
            preferences_keys(),
        ) == rest(m, preferences_keys()),
{
    let x = Preferences::read(Tree::Mapping(m))->Some_0;
    let slots = preferences_slots(x);
    assert(slot_keys(slots) =~= preferences_keys());
    lemma_record_read_back(slots, x.extra);
    lemma_rest_idempotent(m, preferences_keys());
}

/// The entries of a cluster that the model does not name are written back
/// unchanged and in their order.
pub proof fn lemma_cluster_unknown_entries_kept(m: Seq<Entry>)
    requires
        Cluster::read(Tree::Mapping(m)) is Some,
    ensures
        Cluster::write(Cluster::read(Tree::Mapping(m))->Some_0) matches Tree::Mapping(w) && rest(
            w,
            cluster_keys(),
        ) == rest(m, cluster_keys()),
{
    let x = Cluster::read(Tree::Mapping(m))->Some_0;
    let slots = cluster_slots(x);
    lemma_cluster_key_literals();
    assert(slot_keys(slots) =~= cluster_keys());
    lemma_record_read_back(slots, x.extra);
    lemma_rest_idempotent(m, cluster_keys());
}

/// The entries of a named cluster that the model does not name are written back
/// unchanged and in their order.
pub proof fn lemma_named_cluster_unknown_entries_kept(m: Seq<Entry>)
    requires
        NamedCluster::read(Tree::Mapping(m)) is Some,
    ensures
        NamedCluster::write(NamedCluster::read(Tree::Mapping(m))->Some_0) matches Tree::Mapping(w) && rest(
            w,
            named_cluster_keys(),
        ) == rest(m, named_cluster_keys()),
{
    let x = NamedCluster::read(Tree::Mapping(m))->Some_0;
    let slots = named_cluster_slots(x);
    lemma_named_cluster_key_literals();
    assert(slot_keys(slots) =~= named_cluster_keys());
    lemma_record_read_back(slots, x.extra);
    lemma_rest_idempotent(m, named_cluster_keys());
}

/// The entries of a context that the model does not name are written back
/// unchanged and in their order.
pub proof fn lemma_context_unknown_entries_kept(m: Seq<Entry>)
    requires
        Context::read(Tree::Mapping(m)) is Some,
    ensures
        Context::write(Context::read(Tree::Mapping(m))->Some_0) matches Tree::Mapping(w) && rest(
            w,
            context_keys(),
        ) == rest(m, context_keys()),
{
    let x = Context::read(Tree::Mapping(m))->Some_0;
    let slots = context_slots(x);
    lemma_context_key_literals();
    assert(slot_keys(slots) =~= context_keys());
    lemma_record_read_back(slots, x.extra);
    lemma_rest_idempotent(m, context_keys());
}

/// The entries of a named context that the model does not name are written back
/// unchanged and in their order.
pub proof fn lemma_named_context_unknown_entries_kept(m: Seq<Entry>)
    requires
        NamedContext::read(Tree::Mapping(m)) is Some,
    ensures
        NamedContext::write(NamedContext::read(Tree::Mapping(m))->Some_0) matches Tree::Mapping(w) && rest(
            w,
            named_context_keys(),
        ) == rest(m, named_context_keys()),
{
    let x = NamedContext::read(Tree::Mapping(m))->Some_0;
    let slots = named_context_slots(x);
    lemma_named_context_key_literals();
    assert(slot_keys(slots) =~= named_context_keys());
    lemma_record_read_back(slots, x.extra);
    lemma_rest_idempotent(m, named_context_keys());
}

/// The entries of a credential plugin that the model does not name are written back
/// unchanged and in their order.
pub proof fn lemma_exec_config_unknown_entries_kept(m: Seq<Entry>)
    requires
        ExecConfig::read(Tree::Mapping(m)) is Some,
    ensures
        ExecConfig::write(ExecConfig::read(Tree::Mapping(m))->Some_0) matches Tree::Mapping(w) && rest(
            w,
            exec_config_keys(),
        ) == rest(m, exec_config_keys()),
{
    let x = ExecConfig::read(Tree::Mapping(m))->Some_0;
    let slots = exec_config_slots(x);
    lemma_exec_config_key_literals();
    assert(slot_keys(slots) =~= exec_config_keys());
    lemma_record_read_back(slots, x.extra);
    lemma_rest_idempotent(m, exec_config_keys());
}

/// The entries of an authentication provider that the model does not name are written back
/// unchanged and in their order.
pub proof fn lemma_auth_provider_unknown_entries_kept(m: Seq<Entry>)
    requires
        AuthProvider::read(Tree::Mapping(m)) is Some,
    ensures
        AuthProvider::write(AuthProvider::read(Tree::Mapping(m))->Some_0) matches Tree::Mapping(w) && rest(
            w,
            auth_provider_keys(),
        ) == rest(m, auth_provider_keys()),
{
    let x = AuthProvider::read(Tree::Mapping(m))->Some_0;
    let slots = auth_provider_slots(x);
    lemma_auth_provider_key_literals();
    assert(slot_keys(slots) =~= auth_provider_keys());
    lemma_record_read_back(slots, x.extra);
    lemma_rest_idempotent(m, auth_provider_keys());
}

/// The entries of a named user that the model does not name are written back
/// unchanged and in their order.
pub proof fn lemma_named_user_unknown_entries_kept(m: Seq<Entry>)
    requires
        NamedUser::read(Tree::Mapping(m)) is Some,
    ensures
        NamedUser::write(NamedUser::read(Tree::Mapping(m))->Some_0) matches Tree::Mapping(w) && rest(
            w,
            named_user_keys(),
        ) == rest(m, named_user_keys()),
{
    let x = NamedUser::read(Tree::Mapping(m))->Some_0;
    let slots = named_user_slots(x);
    lemma_named_user_key_literals();
    assert(slot_keys(slots) =~= named_user_keys());
    lemma_record_read_back(slots, x.extra);
    lemma_rest_idempotent(m, named_user_keys());
}

/// A document without preferences, extensions or a current context is
/// written without those keys.
pub proof fn lemma_absent_fields_omitted(d: KubeconfigView)
    requires
        d.preferences is None,
        d.extensions.len() == 0,
        d.current_context is None,
    ensures
        Kubeconfig::write(d) matches Tree::Mapping(w) && lookup(w, "preferences"@) is None && lookup(
            w,
            "extensions"@,
        ) is None && lookup(w, "current-context"@) is None,
{
    let slots = kubeconfig_slots(d);
    let ks = kubeconfig_keys();
    lemma_kubeconfig_key_literals();
    assert(slot_keys(slots) =~= ks);
    lemma_record_read_back(slots, d.extra);
    assert(slots[2].0 == "preferences"@);
    assert(slots[6].0 == "current-context"@);
    assert(slots[7].0 == "extensions"@);
}

} // verus!
