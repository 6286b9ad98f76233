//! Credential transfer between two backends: what to move, under which keys,
//! what stands in the way, and how the outcome is tallied.

use vstd::prelude::*;

use crate::ids::{uuid_string, uuid_text};
use crate::sorting::{isort, list_order, sort_lists, sort_strings, str_order};
use crate::vault::backend::{is_kdbx, SecretBackendType};
use crate::vault::keys::{
    append_protocol, build_entry_path, build_group_entry_path, connection_keys, entry_path,
    group_entry_path, group_path_text, store_key, strip_rustconn, strip_rustconn_prefix, variable_key, variable_secret_key,
    vault_keys_for_connection, views, with_protocol,
};
use crate::vault::model::{protocol_name, Connection, ConnectionGroup, PasswordSource, Variable};

verus! {

/// One credential to move, resolved to the key each side files it under.
#[derive(Debug, Clone)]
pub struct CredentialTransferItem {
    /// What to call this entry when reporting; never a secret.
    pub label: String,
    /// Keys to try in the source, most-current format first.
    pub source_keys: Vec<String>,
    /// Key to write in the destination.
    pub destination_key: String,
    /// Username to pair with the password when the source cannot supply one.
    pub username: Option<String>,
}

/// The abstract content of a [`CredentialTransferItem`].
pub struct ItemView {
    /// Label.
    pub label: Seq<char>,
    /// Source keys.
    pub source_keys: Seq<Seq<char>>,
    /// Destination key.
    pub destination_key: Seq<char>,
    /// Username.
    pub username: Option<Seq<char>>,
}

/// The view of an optional string.
pub open spec fn opt_view(o: Option<String>) -> Option<Seq<char>> {
    match o {
        Some(s) => Some(s@),
        None => None,
    }
}

impl CredentialTransferItem {
    /// The abstract content of the item.
    pub open spec fn view_item(self) -> ItemView {
        ItemView {
            label: self.label@,
            source_keys: views(self.source_keys@),
            destination_key: self.destination_key@,
            username: opt_view(self.username),
        }
    }
}

/// The views of a sequence of items.
pub open spec fn item_views(v: Seq<CredentialTransferItem>) -> Seq<ItemView> {
    v.map_values(|it: CredentialTransferItem| it.view_item())
}

/// Keys a connection's credential can live under in `backend`, current format
/// first: the KeePass entry name on the KDBX rows, the lookup keys otherwise.
pub open spec fn transfer_keys(
    gs: Seq<ConnectionGroup>,
    c: Connection,
    protocol: Seq<char>,
    backend: SecretBackendType,
) -> Seq<Seq<char>> {
    if is_kdbx(backend) {
        seq![with_protocol(strip_rustconn(entry_path(gs, c)), protocol)]
    } else {
        connection_keys(gs, c, protocol, backend)
    }
}

/// Key a group's credential lives under in `backend`: the entry path on the
/// KDBX rows, the group UUID otherwise.
pub open spec fn group_key(gs: Seq<ConnectionGroup>, g: ConnectionGroup, backend: SecretBackendType) -> Seq<char> {
    if is_kdbx(backend) {
        strip_rustconn(group_entry_path(gs, g))
    } else {
        uuid_text(g.id)
    }
}

/// The item planned for a vault-backed connection.
pub open spec fn connection_item(
    gs: Seq<ConnectionGroup>,
    c: Connection,
    source: SecretBackendType,
    destination: SecretBackendType,
) -> ItemView {
    ItemView {
        label: c.name@,
        source_keys: transfer_keys(gs, c, protocol_name(c.protocol), source),
        destination_key: transfer_keys(gs, c, protocol_name(c.protocol), destination)[0],
        username: opt_view(c.username),
    }
}

/// The items planned for the vault-backed connections among `cs`, in order.
pub open spec fn connection_items(
    gs: Seq<ConnectionGroup>,
    cs: Seq<Connection>,
    source: SecretBackendType,
    destination: SecretBackendType,
) -> Seq<ItemView>
    decreases cs.len(),
{
    if cs.len() == 0 {
        seq![]
    } else {
        let rest = connection_items(gs, cs.drop_last(), source, destination);
        if cs.last().password_source == PasswordSource::Vault {
            rest.push(connection_item(gs, cs.last(), source, destination))
        } else {
            rest
        }
    }
}

/// The item planned for a vault-backed group.
pub open spec fn group_item(
    gs: Seq<ConnectionGroup>,
    g: ConnectionGroup,
    source: SecretBackendType,
    destination: SecretBackendType,
) -> ItemView {
    ItemView {
        label: g.name@,
        source_keys: seq![group_key(gs, g, source)],
        destination_key: group_key(gs, g, destination),
        username: opt_view(g.username),
    }
}

/// The items planned for the vault-backed groups among `sub` (a prefix of
/// the group list `gs`), in order.
pub open spec fn group_items(
    gs: Seq<ConnectionGroup>,
    sub: Seq<ConnectionGroup>,
    source: SecretBackendType,
    destination: SecretBackendType,
) -> Seq<ItemView>
    decreases sub.len(),
{
    if sub.len() == 0 {
        seq![]
    } else {
        let rest = group_items(gs, sub.drop_last(), source, destination);
        if sub.last().password_source == Some(PasswordSource::Vault) {
            rest.push(group_item(gs, sub.last(), source, destination))
        } else {
            rest
        }
    }
}

/// Whether a variable holds a secret RustConn itself stores.
pub open spec fn owned_secret(v: Variable) -> bool {
    v.is_secret && v.kdbx_entry_path is None && v.vault_entry_name is None
}

/// The items planned for the owned secret variables among `vs`, in order.
pub open spec fn variable_items(vs: Seq<Variable>) -> Seq<ItemView>
    decreases vs.len(),
{
    if vs.len() == 0 {
        seq![]
    } else {
        let rest = variable_items(vs.drop_last());
        let v = vs.last();
        if owned_secret(v) {
            rest.push(ItemView {
                label: v.name@,
                source_keys: seq![variable_key(v.name@)],
                destination_key: variable_key(v.name@),
                username: None,
            })
        } else {
            rest
        }
    }
}

/// Every item a transfer plans, connections first, then groups, then
/// variables.
pub open spec fn plan_items(
    vs: Seq<Variable>,
    cs: Seq<Connection>,
    gs: Seq<ConnectionGroup>,
    source: SecretBackendType,
    destination: SecretBackendType,
) -> Seq<ItemView> {
    connection_items(gs, cs, source, destination) + group_items(gs, gs, source, destination)
        + variable_items(vs)
}

/// Labels of the items whose destination key is `k`, in item order.
pub open spec fn labels_with_key(items: Seq<ItemView>, k: Seq<char>) -> Seq<Seq<char>>
    decreases items.len(),
{
    if items.len() == 0 {
        seq![]
    } else {
        let rest = labels_with_key(items.drop_last(), k);
        if items.last().destination_key == k {
            rest.push(items.last().label)
        } else {
            rest
        }
    }
}

/// Destination keys in order of first appearance.
pub open spec fn distinct_keys(items: Seq<ItemView>) -> Seq<Seq<char>>
    decreases items.len(),
{
    if items.len() == 0 {
        seq![]
    } else {
        let rest = distinct_keys(items.drop_last());
        if rest.contains(items.last().destination_key) {
            rest
        } else {
            rest.push(items.last().destination_key)
        }
    }
}

/// For each key in `ks`, in order, the sorted labels sharing it, when more
/// than one entry does.
pub open spec fn shared_groups(items: Seq<ItemView>, ks: Seq<Seq<char>>) -> Seq<Seq<Seq<char>>>
    decreases ks.len(),
{
    if ks.len() == 0 {
        seq![]
    } else {
        let rest = shared_groups(items, ks.drop_last());
        let labels = labels_with_key(items, ks.last());
        if labels.len() > 1 {
            rest.push(isort(labels, str_order()))
        } else {
            rest
        }
    }
}

/// The collision report: every set of entries that would land on one
/// destination key, each sorted, the whole list sorted.
pub open spec fn collisions_spec(items: Seq<ItemView>) -> Seq<Seq<Seq<char>>> {
    isort(shared_groups(items, distinct_keys(items)), list_order())
}

/// The concatenation of `g` over `s`, in order.
pub open spec fn gather<A, B>(s: Seq<A>, g: spec_fn(A) -> Seq<B>) -> Seq<B>
    decreases s.len(),
{
    if s.len() == 0 {
        seq![]
    } else {
        gather(s.drop_last(), g) + g(s.last())
    }
}

/// Gathering over `s` gathers over `s` without element `j`, plus what
/// element `j` gives, as multisets.
proof fn lemma_gather_remove<A, B>(s: Seq<A>, g: spec_fn(A) -> Seq<B>, j: int)
    requires
        0 <= j < s.len(),
    ensures
        gather(s, g).to_multiset() == gather(s.remove(j), g).to_multiset().add(g(s[j]).to_multiset()),
    decreases s.len(),
{
    broadcast use vstd::seq_lib::lemma_multiset_commutative;
    broadcast use vstd::multiset::group_multiset_axioms;

    if j == s.len() - 1 {
        assert(s.remove(j) =~= s.drop_last());
    } else {
        let c = s.drop_last();
        lemma_gather_remove(c, g, j);
        assert(c.remove(j) =~= s.remove(j).drop_last());
        assert(s.remove(j).last() == s.last());
        let x = gather(c.remove(j), g).to_multiset();
        let y = g(s[j]).to_multiset();
        let z = g(s.last()).to_multiset();
        assert(x.add(y).add(z) =~= x.add(z).add(y));
    }
}

/// Gathering over two arrangements of the same elements gives the same
/// elements.
proof fn lemma_gather_permutation<A, B>(a: Seq<A>, b: Seq<A>, g: spec_fn(A) -> Seq<B>)
    requires
        a.to_multiset() == b.to_multiset(),
    ensures
        gather(a, g).to_multiset() == gather(b, g).to_multiset(),
    decreases a.len(),
{
    broadcast use vstd::seq_lib::group_to_multiset_ensures;

    assert(a.to_multiset().len() == a.len());
    assert(b.to_multiset().len() == b.len());
    if a.len() == 0 {
        assert(b =~= a);
    } else {
        let n = a.len() - 1;
        let x = a[n];
        assert(a.to_multiset().count(x) > 0) by {
            assert(a.contains(x));
        }
        assert(b.contains(x));
        let j = choose|j: int| 0 <= j < b.len() && b[j] == x;
        assert(a.remove(n).to_multiset() == b.remove(j).to_multiset());
        lemma_gather_permutation(a.remove(n), b.remove(j), g);
        lemma_gather_remove(a, g, n);
        lemma_gather_remove(b, g, j);
    }
}

/// What one item adds to the labels under key `k`.
pub open spec fn label_if_key(k: Seq<char>) -> spec_fn(ItemView) -> Seq<Seq<char>> {
    |it: ItemView| if it.destination_key == k {
        seq![it.label]
    } else {
        seq![]
    }
}

/// What one key adds to the collision groups.
pub open spec fn group_if_shared(items: Seq<ItemView>) -> spec_fn(Seq<char>) -> Seq<Seq<Seq<char>>> {
    |k: Seq<char>| if labels_with_key(items, k).len() > 1 {
        seq![isort(labels_with_key(items, k), str_order())]
    } else {
        seq![]
    }
}

proof fn lemma_labels_gather(items: Seq<ItemView>, k: Seq<char>)
    ensures
        labels_with_key(items, k) == gather(items, label_if_key(k)),
    decreases items.len(),
{
    if items.len() > 0 {
        lemma_labels_gather(items.drop_last(), k);
        assert(labels_with_key(items, k) =~= gather(items, label_if_key(k)));
    }
}

proof fn lemma_groups_gather(items: Seq<ItemView>, ks: Seq<Seq<char>>)
    ensures
        shared_groups(items, ks) == gather(ks, group_if_shared(items)),
    decreases ks.len(),
{
    if ks.len() > 0 {
        lemma_groups_gather(items, ks.drop_last());
        assert(shared_groups(items, ks) =~= gather(ks, group_if_shared(items)));
    }
}

/// The keys [`distinct_keys`] lists: each destination key once.
proof fn lemma_distinct_keys(items: Seq<ItemView>)
    ensures
        distinct_keys(items).no_duplicates(),
        forall|k: Seq<char>| #[trigger] distinct_keys(items).contains(k) <==> exists|i: int|
            0 <= i < items.len() && items[i].destination_key == k,
    decreases items.len(),
{
    if items.len() > 0 {
        let rest = items.drop_last();
        lemma_distinct_keys(rest);
        assert forall|k: Seq<char>| #[trigger] distinct_keys(items).contains(k) <==> exists|i: int|
            0 <= i < items.len() && items[i].destination_key == k by {
            if exists|i: int| 0 <= i < items.len() && items[i].destination_key == k {
                let i = choose|i: int| 0 <= i < items.len() && items[i].destination_key == k;
                if i < items.len() - 1 {
                    assert(rest[i] == items[i]);
                    assert(distinct_keys(rest).contains(k));
                    if !distinct_keys(rest).contains(items.last().destination_key) {
                        assert(distinct_keys(items)[distinct_keys(rest).index_of(k)] == k);
                    }
                } else {
                    if distinct_keys(rest).contains(k) {
                    } else {
                        assert(distinct_keys(items).last() == k);
                    }
                }
            }
            if distinct_keys(items).contains(k) {
                let p = choose|p: int| 0 <= p < distinct_keys(items).len() && distinct_keys(items)[p] == k;
                if p < distinct_keys(rest).len() {
                    assert(distinct_keys(rest)[p] == k);
                    assert(distinct_keys(rest).contains(k));
                    let i = choose|i: int| 0 <= i < rest.len() && rest[i].destination_key == k;
                    assert(items[i] == rest[i]);
                } else {
                    assert(items[items.len() - 1].destination_key == k);
                }
            }
        }
    }
}

/// A sequence without repeats holds each of its elements once.
proof fn lemma_no_dup_count<A>(s: Seq<A>, x: A)
    requires
        s.no_duplicates(),
    ensures
        s.to_multiset().count(x) == if s.contains(x) { 1nat } else { 0nat },
    decreases s.len(),
{
    broadcast use vstd::seq_lib::group_to_multiset_ensures;
    broadcast use vstd::multiset::group_multiset_axioms;

    if s.len() > 0 {
        let r = s.drop_last();
        assert(r.no_duplicates());
        lemma_no_dup_count(r, x);
        assert(s =~= r.push(s.last()));
        if x == s.last() {
            assert(!r.contains(x));
        } else if s.contains(x) {
            let i = choose|i: int| 0 <= i < s.len() && s[i] == x;
            assert(r[i] == x);
        } else if r.contains(x) {
            let i = choose|i: int| 0 <= i < r.len() && r[i] == x;
            assert(s[i] == x);
        }
    } else {
        assert(!s.contains(x));
    }
}

/// Two arrangements of the same items have the same keys, each once.
proof fn lemma_distinct_keys_permutation(a: Seq<ItemView>, b: Seq<ItemView>)
    requires
        a.to_multiset() == b.to_multiset(),
    ensures
        distinct_keys(a).to_multiset() == distinct_keys(b).to_multiset(),
{
    broadcast use vstd::seq_lib::group_to_multiset_ensures;

    lemma_distinct_keys(a);
    lemma_distinct_keys(b);
    assert forall|k: Seq<char>| #[trigger] distinct_keys(a).contains(k) == distinct_keys(b).contains(k) by {
        if exists|i: int| 0 <= i < a.len() && a[i].destination_key == k {
            let i = choose|i: int| 0 <= i < a.len() && a[i].destination_key == k;
            assert(a.to_multiset().count(a[i]) > 0) by {
                assert(a.contains(a[i]));
            }
            assert(b.contains(a[i]));
            let j = choose|j: int| 0 <= j < b.len() && b[j] == a[i];
            assert(b[j].destination_key == k);
        }
        if exists|i: int| 0 <= i < b.len() && b[i].destination_key == k {
            let i = choose|i: int| 0 <= i < b.len() && b[i].destination_key == k;
            assert(b.to_multiset().count(b[i]) > 0) by {
                assert(b.contains(b[i]));
            }
            assert(a.contains(b[i]));
            let j = choose|j: int| 0 <= j < a.len() && a[j] == b[i];
            assert(a[j].destination_key == k);
        }
    }
    assert forall|k: Seq<char>| distinct_keys(a).to_multiset().count(k) == distinct_keys(b).to_multiset().count(k) by {
        lemma_no_dup_count(distinct_keys(a), k);
        lemma_no_dup_count(distinct_keys(b), k);
        assert(distinct_keys(a).contains(k) == distinct_keys(b).contains(k));
    }
    assert(distinct_keys(a).to_multiset() =~= distinct_keys(b).to_multiset());
}

/// Two arrangements of the same items group every key alike.
proof fn lemma_groups_same_items(a: Seq<ItemView>, b: Seq<ItemView>, ks: Seq<Seq<char>>)
    requires
        a.to_multiset() == b.to_multiset(),
    ensures
        shared_groups(a, ks) == shared_groups(b, ks),
    decreases ks.len(),
{
    broadcast use vstd::seq_lib::group_to_multiset_ensures;

    if ks.len() > 0 {
        lemma_groups_same_items(a, b, ks.drop_last());
        let k = ks.last();
        lemma_labels_gather(a, k);
        lemma_labels_gather(b, k);
        lemma_gather_permutation(a, b, label_if_key(k));
        let la = labels_with_key(a, k);
        let lb = labels_with_key(b, k);
        assert(la.to_multiset().len() == la.len());
        assert(lb.to_multiset().len() == lb.len());
        crate::sorting::lemma_str_order_is_total();
        crate::sorting::lemma_isort_permutation(la, lb, str_order());
    }
}

/// The collisions found among a list of entries do not depend on the
/// order of the entries: any rearrangement of the same entries gives the
/// same collision report.
pub proof fn law_collisions_ignore_item_order(a: Seq<ItemView>, b: Seq<ItemView>)
    requires
        a.to_multiset() == b.to_multiset(),
    ensures
        collisions_spec(a) == collisions_spec(b),
{
    let ka = distinct_keys(a);
    let kb = distinct_keys(b);
    lemma_groups_same_items(a, b, ka);
    lemma_distinct_keys_permutation(a, b);
    lemma_groups_gather(b, ka);
    lemma_groups_gather(b, kb);
    lemma_gather_permutation(ka, kb, group_if_shared(b));
    crate::sorting::lemma_list_order_is_total();
    crate::sorting::lemma_isort_permutation(shared_groups(b, ka), shared_groups(b, kb), list_order());
}

/// What a transfer would move, and what stands in its way.
#[derive(Debug, Clone)]
pub struct CredentialTransferPlan {
    /// The credentials to copy, one entry each.
    pub items: Vec<CredentialTransferItem>,
    /// Entries that would overwrite one another in the destination, grouped
    /// by the key they share.
    pub collisions: Vec<Vec<String>>,
}

/// The views of a list of label lists.
pub open spec fn list_views(v: Seq<Vec<String>>) -> Seq<Seq<Seq<char>>> {
    v.map_values(|l: Vec<String>| l@.map_values(|s: String| s@))
}

/// Keys a connection's credential can live under in `backend_type`, current
/// format first.
pub fn transfer_keys_for_connection(
    groups: &Vec<ConnectionGroup>,
    connection: &Connection,
    protocol_str: &str,
    backend_type: SecretBackendType,
) -> (keys: Vec<String>)
    ensures
        views(keys@) == transfer_keys(groups@, *connection, protocol_str@, backend_type),
        keys@.len() >= 1,
{
    if matches!(backend_type, SecretBackendType::KeePassXc | SecretBackendType::KdbxFile) {
        let path = build_entry_path(connection, groups);
        let base = strip_rustconn_prefix(path.as_str());
        let mut keys: Vec<String> = Vec::new();
        keys.push(append_protocol(base.as_str(), protocol_str));
        proof {
            assert(views(keys@) =~= transfer_keys(groups@, *connection, protocol_str@, backend_type));
        }
        return keys;
    }
    vault_keys_for_connection(groups, connection, protocol_str, backend_type)
}

/// Key a group's credential lives under in `backend_type`.
pub fn transfer_key_for_group(
    groups: &Vec<ConnectionGroup>,
    group: &ConnectionGroup,
    backend_type: SecretBackendType,
) -> (key: String)
    ensures
        key@ == group_key(groups@, *group, backend_type),
{
    if matches!(backend_type, SecretBackendType::KeePassXc | SecretBackendType::KdbxFile) {
        let path = build_group_entry_path(group, groups);
        return strip_rustconn_prefix(path.as_str());
    }
    uuid_string(group.id)
}

fn clone_opt(o: &Option<String>) -> (r: Option<String>)
    ensures
        opt_view(r) == opt_view(*o),
{
    match o {
        Some(s) => Some(s.clone()),
        None => None,
    }
}

/// Builds the list of credentials a transfer from `source` to `destination`
/// would move, and the destination keys several of them would share.
///
/// Vault-backed connections and groups are included, and every secret
/// variable RustConn stores itself; variables that point at an external
/// entry are skipped.
pub fn plan_credential_transfer(
    global_variables: &Vec<Variable>,
    connections: &Vec<Connection>,
    groups: &Vec<ConnectionGroup>,
    source: SecretBackendType,
    destination: SecretBackendType,
) -> (plan: CredentialTransferPlan)
    ensures
        item_views(plan.items@) == plan_items(global_variables@, connections@, groups@, source, destination),
        list_views(plan.collisions@) == collisions_spec(item_views(plan.items@)),
{
    let mut items: Vec<CredentialTransferItem> = Vec::new();
    let mut i: usize = 0;
    while i < connections.len()
        invariant
            i <= connections@.len(),
            item_views(items@) == connection_items(groups@, connections@.subrange(0, i as int), source, destination),
        decreases connections@.len() - i,
    {
        let conn = &connections[i];
        proof {
            assert(connections@.subrange(0, i + 1).drop_last() =~= connections@.subrange(0, i as int));
        }
        if conn.password_source == PasswordSource::Vault {
            let protocol = conn.protocol.key_name();
            let source_keys = transfer_keys_for_connection(groups, conn, protocol, source);
            let mut dest_keys = transfer_keys_for_connection(groups, conn, protocol, destination);
            let destination_key = dest_keys.remove(0);
            let ghost before = item_views(items@);
            items.push(CredentialTransferItem {
                label: conn.name.clone(),
                source_keys,
                destination_key,
                username: clone_opt(&conn.username),
            });
            proof {
                assert(item_views(items@) =~= before.push(connection_item(groups@, connections@[i as int], source, destination)));
            }
        }
        i = i + 1;
    }
    assert(connections@.subrange(0, connections@.len() as int) =~= connections@);
    let ghost conn_part = item_views(items@);
    let mut j: usize = 0;
    while j < groups.len()
        invariant
            j <= groups@.len(),
            item_views(items@) == conn_part + group_items(groups@, groups@.subrange(0, j as int), source, destination),
        decreases groups@.len() - j,
    {
        let group = &groups[j];
        proof {
            assert(groups@.subrange(0, j + 1).drop_last() =~= groups@.subrange(0, j as int));
        }
        if group.password_source == Some(PasswordSource::Vault) {
            let mut source_keys: Vec<String> = Vec::new();
            source_keys.push(transfer_key_for_group(groups, group, source));
            let ghost before = item_views(items@);
            let item = CredentialTransferItem {
                label: group.name.clone(),
                source_keys,
                destination_key: transfer_key_for_group(groups, group, destination),
                username: clone_opt(&group.username),
            };
            proof {
                assert(views(item.source_keys@) =~= seq![group_key(groups@, groups@[j as int], source)]);
            }
            items.push(item);
            proof {
                assert(item_views(items@) =~= before.push(group_item(groups@, groups@[j as int], source, destination)));
            }
        } else {
            proof {
                assert(item_views(items@) =~= conn_part + group_items(groups@, groups@.subrange(0, j + 1), source, destination));
            }
        }
        j = j + 1;
    }
    assert(groups@.subrange(0, groups@.len() as int) =~= groups@);
    let ghost group_part = item_views(items@);
    let mut k: usize = 0;
    while k < global_variables.len()
        invariant
            k <= global_variables@.len(),
            item_views(items@) == group_part + variable_items(global_variables@.subrange(0, k as int)),
        decreases global_variables@.len() - k,
    {
        let variable = &global_variables[k];
        proof {
            assert(global_variables@.subrange(0, k + 1).drop_last() =~= global_variables@.subrange(0, k as int));
        }
        if variable.is_secret && variable.kdbx_entry_path.is_none() && variable.vault_entry_name.is_none() {
            let key = variable_secret_key(variable.name.as_str());
            let mut source_keys: Vec<String> = Vec::new();
            source_keys.push(key.clone());
            let ghost before = item_views(items@);
            let item = CredentialTransferItem {
                label: variable.name.clone(),
                source_keys,
                destination_key: key,
                username: None,
            };
            proof {
                assert(views(item.source_keys@) =~= seq![variable_key(global_variables@[k as int].name@)]);
            }
            items.push(item);
            proof {
                assert(item_views(items@) =~= before.push(item.view_item()));
            }
        } else {
            proof {
                assert(item_views(items@) =~= group_part + variable_items(global_variables@.subrange(0, k + 1)));
            }
        }
        k = k + 1;
    }
    assert(global_variables@.subrange(0, global_variables@.len() as int) =~= global_variables@);
    let collisions = find_destination_collisions(&items);
    CredentialTransferPlan { items, collisions }
}

/// Labels of the items whose destination key is `key`, in item order.
fn labels_for_key(items: &Vec<CredentialTransferItem>, key: &String) -> (labels: Vec<String>)
    ensures
        views(labels@) == labels_with_key(item_views(items@), key@),
{
    let mut labels: Vec<String> = Vec::new();
    let mut i: usize = 0;
    while i < items.len()
        invariant
            i <= items@.len(),
            views(labels@) == labels_with_key(item_views(items@).subrange(0, i as int), key@),
        decreases items@.len() - i,
    {
        proof {
            assert(item_views(items@).subrange(0, i + 1).drop_last() =~= item_views(items@).subrange(0, i as int));
        }
        if items[i].destination_key == *key {
            let ghost before = views(labels@);
            labels.push(items[i].label.clone());
            proof {
                assert(views(labels@) =~= before.push(items@[i as int].label@));
            }
        }
        i = i + 1;
    }
    assert(item_views(items@).subrange(0, items@.len() as int) =~= item_views(items@));
    labels
}

/// Destination keys in order of first appearance.
fn distinct_destination_keys(items: &Vec<CredentialTransferItem>) -> (keys: Vec<String>)
    ensures
        views(keys@) == distinct_keys(item_views(items@)),
{
    let mut keys: Vec<String> = Vec::new();
    let mut i: usize = 0;
    while i < items.len()
        invariant
            i <= items@.len(),
            views(keys@) == distinct_keys(item_views(items@).subrange(0, i as int)),
        decreases items@.len() - i,
    {
        proof {
            assert(item_views(items@).subrange(0, i + 1).drop_last() =~= item_views(items@).subrange(0, i as int));
        }
        let key = &items[i].destination_key;
        let mut seen = false;
        let mut j: usize = 0;
        while j < keys.len()
            invariant
                j <= keys@.len(),
                seen == views(keys@).subrange(0, j as int).contains(key@),
            decreases keys@.len() - j,
        {
            proof {
                let pre = views(keys@).subrange(0, j as int);
                let post = views(keys@).subrange(0, j + 1);
                assert(post =~= pre.push(keys@[j as int]@));
                assert(post.contains(key@) <==> pre.contains(key@) || keys@[j as int]@ == key@) by {
                    if post.contains(key@) {
                        let w = choose|w: int| 0 <= w < post.len() && post[w] == key@;
                        if w < j {
                            assert(pre[w] == key@);
                        }
                    }
                    if pre.contains(key@) {
                        let w = choose|w: int| 0 <= w < pre.len() && pre[w] == key@;
                        assert(post[w] == key@);
                    }
                    if keys@[j as int]@ == key@ {
                        assert(post[j as int] == key@);
                    }
                }
            }
            if keys[j] == *key {
                seen = true;
            }
            j = j + 1;
        }
        proof {
            assert(views(keys@).subrange(0, keys@.len() as int) =~= views(keys@));
        }
        if !seen {
            let ghost before = views(keys@);
            keys.push(key.clone());
            proof {
                assert(views(keys@) =~= before.push(key@));
            }
        }
        i = i + 1;
    }
    assert(item_views(items@).subrange(0, items@.len() as int) =~= item_views(items@));
    keys
}

/// Groups of entries that would land on the same key in the destination,
/// each group's labels sorted and the groups sorted.
pub fn find_destination_collisions(items: &Vec<CredentialTransferItem>) -> (collisions: Vec<Vec<String>>)
    ensures
        list_views(collisions@) == collisions_spec(item_views(items@)),
{
    let keys = distinct_destination_keys(items);
    let mut groups: Vec<Vec<String>> = Vec::new();
    let mut i: usize = 0;
    while i < keys.len()
        invariant
            i <= keys@.len(),
            views(keys@) == distinct_keys(item_views(items@)),
            list_views(groups@) == shared_groups(item_views(items@), views(keys@).subrange(0, i as int)),
        decreases keys@.len() - i,
    {
        proof {
            assert(views(keys@).subrange(0, i + 1).drop_last() =~= views(keys@).subrange(0, i as int));
        }
        let labels = labels_for_key(items, &keys[i]);
        if labels.len() > 1 {
            let sorted = sort_strings(labels);
            let ghost before = list_views(groups@);
            groups.push(sorted);
            proof {
                assert(list_views(groups@) =~= before.push(isort(labels_with_key(item_views(items@), keys@[i as int]@), str_order())));
            }
        }
        i = i + 1;
    }
    assert(views(keys@).subrange(0, keys@.len() as int) =~= views(keys@));
    sort_lists(groups)
}

/// Outcome of a credential transfer.
#[derive(Debug, Clone)]
pub struct CredentialTransferReport {
    /// Credentials read from the source and written to the destination.
    pub transferred: usize,
    /// Entries the source held nothing for.
    pub missing: usize,
    /// Entries that arrived but lost fields the destination cannot hold,
    /// as `(label, field list)`.
    pub incomplete: Vec<(String, String)>,
    /// Entries that could not be transferred, as `(label, error)`.
    pub failures: Vec<(String, String)>,
    /// Whether the run stopped early because the user asked it to.
    pub cancelled: bool,
}

impl CredentialTransferReport {
    /// An empty report.
    pub fn new() -> (r: CredentialTransferReport)
        ensures
            r.transferred == 0,
            r.missing == 0,
            r.incomplete@.len() == 0,
            r.failures@.len() == 0,
            !r.cancelled,
    {
        CredentialTransferReport {
            transferred: 0,
            missing: 0,
            incomplete: Vec::new(),
            failures: Vec::new(),
            cancelled: false,
        }
    }

    /// Whether every entry that had a credential arrived complete. A cancelled
    /// run is never complete.
    pub fn is_complete(&self) -> (b: bool)
        ensures
            b == (!self.cancelled && self.failures@.len() == 0 && self.incomplete@.len() == 0),
    {
        !self.cancelled && self.failures.len() == 0 && self.incomplete.len() == 0
    }
}

/// What happened to one planned entry.
#[derive(Debug, Clone)]
pub enum EntryOutcome {
    /// Read and written; `dropped` names the fields the destination could
    /// not hold (empty for a clean copy).
    Copied { dropped: Vec<String> },
    /// The source held nothing for it.
    Missing,
    /// Reading or writing failed with this description.
    Failed(String),
}

/// `parts.join(", ")`.
pub open spec fn comma_join(parts: Seq<Seq<char>>) -> Seq<char> {
    crate::vault::keys::join(parts, ", "@)
}

impl CredentialTransferReport {
    /// Tallies one entry's outcome, as the transfer loop does after each entry.
    pub fn record(&mut self, label: &str, outcome: EntryOutcome)
        requires
            old(self).transferred < usize::MAX,
            old(self).missing < usize::MAX,
        ensures
            final(self).cancelled == old(self).cancelled,
            final(self).transferred + final(self).missing + final(self).failures@.len() == old(
                self,
            ).transferred + old(self).missing + old(self).failures@.len() + 1,
            match outcome {
                EntryOutcome::Copied { dropped } => {
                    &&& final(self).transferred == old(self).transferred + 1
                    &&& final(self).missing == old(self).missing
                    &&& final(self).failures@ == old(self).failures@
                    &&& if dropped@.len() == 0 {
                        final(self).incomplete@ == old(self).incomplete@
                    } else {
                        final(self).incomplete@.len() == old(self).incomplete@.len() + 1
                        && final(self).incomplete@.drop_last() == old(self).incomplete@
                        && final(self).incomplete@.last().0@ == label@
                        && final(self).incomplete@.last().1@ == comma_join(views(dropped@))
                    }
                },
                EntryOutcome::Missing => {
                    &&& final(self).transferred == old(self).transferred
                    &&& final(self).missing == old(self).missing + 1
                    &&& final(self).failures@ == old(self).failures@
                    &&& final(self).incomplete@ == old(self).incomplete@
                },
                EntryOutcome::Failed(e) => {
                    &&& final(self).transferred == old(self).transferred
                    &&& final(self).missing == old(self).missing
                    &&& final(self).incomplete@ == old(self).incomplete@
                    &&& final(self).failures@.len() == old(self).failures@.len() + 1
                    &&& final(self).failures@.drop_last() == old(self).failures@
                    &&& final(self).failures@.last().0@ == label@
                    &&& final(self).failures@.last().1@ == e@
                },
            },
    {
        match outcome {
            EntryOutcome::Copied { dropped } => {
                self.transferred = self.transferred + 1;
                if dropped.len() > 0 {
                    let joined = crate::vault::keys::join_strings(&dropped, ", ");
                    self.incomplete.push((label.to_owned(), joined));
                }
            },
            EntryOutcome::Missing => {
                self.missing = self.missing + 1;
            },
            EntryOutcome::Failed(e) => {
                self.failures.push((label.to_owned(), e));
            },
        }
    }
}

/// The password a KeePass write stores for an entry: a KDBX entry cannot be
/// written without one, so a credential that has none is refused.
pub fn kdbx_entry_password(password: Option<&str>) -> (r: Result<String, String>)
    ensures
        match password {
            Some(p) => r matches Ok(q) && q@ == p@,
            None => r matches Err(e) && e@ == "the entry has no password to write"@,
        },
{
    match password {
        Some(p) => Ok(p.to_owned()),
        None => Err(String::from_str("the entry has no password to write")),
    }
}

/// Fields a KeePass entry has nowhere to hold: a KDBX write keeps title,
/// username, password and URL, so a key passphrase and a domain are dropped.
pub fn kdbx_dropped_fields(has_key_passphrase: bool, has_domain: bool) -> (dropped: Vec<String>)
    ensures
        views(dropped@) == (if has_key_passphrase { seq!["key passphrase"@] } else { seq![] }) + (
        if has_domain { seq!["domain"@] } else { seq![] }),
{
    let mut dropped: Vec<String> = Vec::new();
    if has_key_passphrase {
        dropped.push("key passphrase".to_owned());
    }
    if has_domain {
        dropped.push("domain".to_owned());
    }
    proof {
        assert(views(dropped@) =~= (if has_key_passphrase { seq!["key passphrase"@] } else { seq![] }) + (
        if has_domain { seq!["domain"@] } else { seq![] }));
    }
    dropped
}

/// The result of looking one source key up.
#[derive(Debug, Clone)]
pub enum KeyLookup {
    /// The key held a credential.
    Found,
    /// The key held nothing.
    Miss,
    /// The lookup failed with this description.
    Error(String),
}

/// How reading one entry from the source ended.
#[derive(Debug, Clone, PartialEq, Eq)]
pub enum EntryRead {
    /// The credential under the source key at this index.
    Found(usize),
    /// No key held anything.
    Missing,
    /// Nothing was found and this was the last failure.
    Failed(String),
}

/// The last error among the lookups, if any.
pub open spec fn last_error(outcomes: Seq<KeyLookup>) -> Option<Seq<char>>
    decreases outcomes.len(),
{
    if outcomes.len() == 0 {
        None
    } else {
        match outcomes.last() {
            KeyLookup::Error(e) => Some(e@),
            _ => last_error(outcomes.drop_last()),
        }
    }
}

/// Decides how an entry's read ended, from the lookups made in key order
/// (the walk stops at the first key that held a credential). A recorded
/// failure outweighs "not found": nothing could look, so a miss would be a
/// false report.
pub fn settle_key_walk(outcomes: &Vec<KeyLookup>) -> (r: EntryRead)
    ensures
        match r {
            EntryRead::Found(i) => i < outcomes@.len() && outcomes@[i as int] is Found
                && forall|k: int| 0 <= k < i ==> !(outcomes@[k] is Found),
            EntryRead::Missing => (forall|k: int| 0 <= k < outcomes@.len() ==> !(outcomes@[k] is Found))
                && last_error(outcomes@) is None,
            EntryRead::Failed(e) => (forall|k: int| 0 <= k < outcomes@.len() ==> !(outcomes@[k] is Found))
                && last_error(outcomes@) == Some(e@),
        },
{
    let mut last: Option<String> = None;
    let mut i: usize = 0;
    while i < outcomes.len()
        invariant
            i <= outcomes@.len(),
            forall|k: int| 0 <= k < i ==> !(outcomes@[k] is Found),
            match last {
                Some(e) => last_error(outcomes@.subrange(0, i as int)) == Some(e@),
                None => last_error(outcomes@.subrange(0, i as int)) is None,
            },
        decreases outcomes@.len() - i,
    {
        proof {
            assert(outcomes@.subrange(0, i + 1).drop_last() =~= outcomes@.subrange(0, i as int));
        }
        match &outcomes[i] {
            KeyLookup::Found => {
                return EntryRead::Found(i);
            },
            KeyLookup::Miss => {},
            KeyLookup::Error(e) => {
                last = Some(e.clone());
            },
        }
        i = i + 1;
    }
    assert(outcomes@.subrange(0, outcomes@.len() as int) =~= outcomes@);
    match last {
        Some(e) => EntryRead::Failed(e),
        None => EntryRead::Missing,
    }
}

/// One side of a transfer, once its preconditions were checked.
#[derive(Debug, Clone, PartialEq, Eq)]
pub enum TransferSide {
    /// An ordinary backend.
    Backend(SecretBackendType),
    /// The KeePass database at this path.
    Kdbx(String),
}

/// Checks that a side of a transfer can be used at all, before any entry is
/// touched: a KeePass side needs a configured database, the integration
/// switched on, and its password when it uses one.
pub fn open_transfer_side(
    settings: &crate::vault::backend::SecretSettings,
    backend_type: SecretBackendType,
) -> (r: Result<TransferSide, String>)
    ensures
        !is_kdbx(backend_type) ==> r == Ok::<TransferSide, String>(TransferSide::Backend(backend_type)),
        is_kdbx(backend_type) ==> match r {
            Ok(TransferSide::Kdbx(p)) => settings.kdbx_path == Some(p) && settings.kdbx_enabled
                && !(settings.kdbx_use_password && !settings.kdbx_password_available),
            Ok(TransferSide::Backend(_)) => false,
            Err(e) => if settings.kdbx_path is None {
                e@ == "no KeePass database is configured"@
            } else if !settings.kdbx_enabled {
                e@ == "KDBX integration is switched off, so entries in the database would not be used"@
            } else {
                settings.kdbx_use_password && !settings.kdbx_password_available
                    && e@ == "the KeePass database password is not available — set it in Settings ▸ Secrets"@
            },
        },
{
    if !matches!(backend_type, SecretBackendType::KeePassXc | SecretBackendType::KdbxFile) {
        return Ok(TransferSide::Backend(backend_type));
    }
    let path = match &settings.kdbx_path {
        Some(p) => p.clone(),
        None => return Err("no KeePass database is configured".to_owned()),
    };
    if !settings.kdbx_enabled {
        return Err(
            "KDBX integration is switched off, so entries in the database would not be used".to_owned(),
        );
    }
    if settings.kdbx_use_password && !settings.kdbx_password_available {
        return Err(
            "the KeePass database password is not available — set it in Settings ▸ Secrets".to_owned(),
        );
    }
    Ok(TransferSide::Kdbx(path))
}

/// A transfer refuses to start when a side cannot be opened; the reason is
/// prefixed with the side.
pub fn transfer_open_error(is_source: bool, reason: &str) -> (s: String)
    ensures
        s@ == (if is_source { "cannot read from the source: "@ } else {
            "cannot write to the destination: "@
        }) + reason@,
{
    let mut s = if is_source {
        String::from_str("cannot read from the source: ")
    } else {
        String::from_str("cannot write to the destination: ")
    };
    s.append(reason);
    s
}

/// A transfer writes a connection's credential exactly where the save path
/// writes it, and so where the connect path will look: the KeePass entry
/// name on the KDBX rows, the group-aware store key elsewhere, which is also
/// the first key the lookup tries.
pub proof fn law_transfer_writes_where_the_save_path_writes(
    gs: Seq<ConnectionGroup>,
    c: Connection,
    protocol: Seq<char>,
    destination: SecretBackendType,
)
    ensures
        is_kdbx(destination) ==> transfer_keys(gs, c, protocol, destination)[0]
            == crate::vault::flows::kdbx_entry_name(gs, c, protocol),
        !is_kdbx(destination) ==> transfer_keys(gs, c, protocol, destination)[0] == store_key(
            c.name@,
            c.host@,
            protocol,
            destination,
            Some(group_path_text(gs, c.group_id)),
        ),
        !is_kdbx(destination) ==> transfer_keys(gs, c, protocol, destination)[0] == connection_keys(
            gs,
            c,
            protocol,
            destination,
        )[0],
{
    crate::vault::keys::lemma_connection_keys_first(gs, c, protocol, destination);
}

/// Each vault-backed connection among `cs` has its item in the planned
/// connection items.
proof fn lemma_connection_planned(
    gs: Seq<ConnectionGroup>,
    cs: Seq<Connection>,
    source: SecretBackendType,
    destination: SecretBackendType,
    i: int,
)
    requires
        0 <= i < cs.len(),
        cs[i].password_source == PasswordSource::Vault,
    ensures
        connection_items(gs, cs, source, destination).contains(connection_item(gs, cs[i], source, destination)),
    decreases cs.len(),
{
    let rest = connection_items(gs, cs.drop_last(), source, destination);
    if i == cs.len() - 1 {
        assert(connection_items(gs, cs, source, destination).last() == connection_item(gs, cs[i], source, destination));
    } else {
        lemma_connection_planned(gs, cs.drop_last(), source, destination, i);
        assert(cs.drop_last()[i] == cs[i]);
        let j = choose|j: int| 0 <= j < rest.len() && rest[j] == connection_item(gs, cs[i], source, destination);
        assert(connection_items(gs, cs, source, destination)[j] == rest[j]);
    }
}

/// Each vault-backed group among `sub` has its item in the planned group
/// items.
proof fn lemma_group_planned(
    gs: Seq<ConnectionGroup>,
    sub: Seq<ConnectionGroup>,
    source: SecretBackendType,
    destination: SecretBackendType,
    i: int,
)
    requires
        0 <= i < sub.len(),
        sub[i].password_source == Some(PasswordSource::Vault),
    ensures
        group_items(gs, sub, source, destination).contains(group_item(gs, sub[i], source, destination)),
    decreases sub.len(),
{
    let rest = group_items(gs, sub.drop_last(), source, destination);
    if i == sub.len() - 1 {
        assert(group_items(gs, sub, source, destination).last() == group_item(gs, sub[i], source, destination));
    } else {
        lemma_group_planned(gs, sub.drop_last(), source, destination, i);
        assert(sub.drop_last()[i] == sub[i]);
        let j = choose|j: int| 0 <= j < rest.len() && rest[j] == group_item(gs, sub[i], source, destination);
        assert(group_items(gs, sub, source, destination)[j] == rest[j]);
    }
}

/// A transfer plans every vault-backed connection with the keys each
/// backend files it under: it reads from every key the source may hold it
/// under (the KeePass entry name `<entry path without RustConn/> (<protocol>)`
/// on the KDBX rows, the lookup keys elsewhere), writes to the first such
/// key of the destination, and carries the connection's username. Every
/// vault-backed group is planned likewise, under its entry path on the KDBX
/// rows and its UUID elsewhere.
pub proof fn law_transfer_plans_every_vault_credential(
    vs: Seq<Variable>,
    cs: Seq<Connection>,
    gs: Seq<ConnectionGroup>,
    source: SecretBackendType,
    destination: SecretBackendType,
)
    ensures
        forall|i: int|
            0 <= i < cs.len() && cs[i].password_source == PasswordSource::Vault ==> exists|j: int|
                0 <= j < plan_items(vs, cs, gs, source, destination).len() && {
                    let it = #[trigger] plan_items(vs, cs, gs, source, destination)[j];
                    let proto = protocol_name(cs[i].protocol);
                    &&& it.label == cs[i].name@
                    &&& it.source_keys == transfer_keys(gs, cs[i], proto, source)
                    &&& it.destination_key == transfer_keys(gs, cs[i], proto, destination)[0]
                    &&& it.username == opt_view(cs[i].username)
                },
        forall|i: int|
            0 <= i < gs.len() && gs[i].password_source == Some(PasswordSource::Vault) ==> exists|j: int|
                0 <= j < plan_items(vs, cs, gs, source, destination).len() && {
                    let it = #[trigger] plan_items(vs, cs, gs, source, destination)[j];
                    &&& it.label == gs[i].name@
                    &&& it.source_keys == seq![group_key(gs, gs[i], source)]
                    &&& it.destination_key == group_key(gs, gs[i], destination)
                    &&& it.username == opt_view(gs[i].username)
                },
{
    let ci = connection_items(gs, cs, source, destination);
    let gi = group_items(gs, gs, source, destination);
    let vi = variable_items(vs);
    let all = plan_items(vs, cs, gs, source, destination);
    assert(all == ci + gi + vi);
    assert forall|i: int|
        0 <= i < cs.len() && cs[i].password_source == PasswordSource::Vault implies exists|j: int|
            0 <= j < all.len() && {
                let it = #[trigger] all[j];
                let proto = protocol_name(cs[i].protocol);
                &&& it.label == cs[i].name@
                &&& it.source_keys == transfer_keys(gs, cs[i], proto, source)
                &&& it.destination_key == transfer_keys(gs, cs[i], proto, destination)[0]
                &&& it.username == opt_view(cs[i].username)
            } by {
        lemma_connection_planned(gs, cs, source, destination, i);
        let j = choose|j: int| 0 <= j < ci.len() && ci[j] == connection_item(gs, cs[i], source, destination);
        assert(all[j] == ci[j]);
    }
    assert forall|i: int|
        0 <= i < gs.len() && gs[i].password_source == Some(PasswordSource::Vault) implies exists|j: int|
            0 <= j < all.len() && {
                let it = #[trigger] all[j];
                &&& it.label == gs[i].name@
                &&& it.source_keys == seq![group_key(gs, gs[i], source)]
                &&& it.destination_key == group_key(gs, gs[i], destination)
                &&& it.username == opt_view(gs[i].username)
            } by {
        lemma_group_planned(gs, gs, source, destination, i);
        let j = choose|j: int| 0 <= j < gi.len() && gi[j] == group_item(gs, gs[i], source, destination);
        assert(all[ci.len() + j] == gi[j]);
    }
}

/// The labels of a list of items, in order.
pub open spec fn labels_of(items: Seq<ItemView>) -> Seq<Seq<char>> {
    items.map_values(|it: ItemView| it.label)
}

/// The names of the vault-backed connections, in order.
pub open spec fn vault_connection_names(cs: Seq<Connection>) -> Seq<Seq<char>>
    decreases cs.len(),
{
    if cs.len() == 0 {
        seq![]
    } else if cs.last().password_source == PasswordSource::Vault {
        vault_connection_names(cs.drop_last()).push(cs.last().name@)
    } else {
        vault_connection_names(cs.drop_last())
    }
}

/// The names of the vault-backed groups, in order.
pub open spec fn vault_group_names(gs: Seq<ConnectionGroup>) -> Seq<Seq<char>>
    decreases gs.len(),
{
    if gs.len() == 0 {
        seq![]
    } else if gs.last().password_source == Some(PasswordSource::Vault) {
        vault_group_names(gs.drop_last()).push(gs.last().name@)
    } else {
        vault_group_names(gs.drop_last())
    }
}

/// The names of the secret variables RustConn stores itself, in order.
pub open spec fn owned_variable_names(vs: Seq<Variable>) -> Seq<Seq<char>>
    decreases vs.len(),
{
    if vs.len() == 0 {
        seq![]
    } else if owned_secret(vs.last()) {
        owned_variable_names(vs.drop_last()).push(vs.last().name@)
    } else {
        owned_variable_names(vs.drop_last())
    }
}

proof fn lemma_labels_of_concat(a: Seq<ItemView>, b: Seq<ItemView>)
    ensures
        labels_of(a + b) == labels_of(a) + labels_of(b),
{
    assert(labels_of(a + b) =~= labels_of(a) + labels_of(b));
}

proof fn lemma_connection_labels(gs: Seq<ConnectionGroup>, cs: Seq<Connection>, source: SecretBackendType, destination: SecretBackendType)
    ensures
        labels_of(connection_items(gs, cs, source, destination)) == vault_connection_names(cs),
    decreases cs.len(),
{
    if cs.len() > 0 {
        lemma_connection_labels(gs, cs.drop_last(), source, destination);
        assert(labels_of(connection_items(gs, cs, source, destination)) =~= vault_connection_names(cs));
    }
}

proof fn lemma_group_labels(gs: Seq<ConnectionGroup>, sub: Seq<ConnectionGroup>, source: SecretBackendType, destination: SecretBackendType)
    ensures
        labels_of(group_items(gs, sub, source, destination)) == vault_group_names(sub),
    decreases sub.len(),
{
    if sub.len() > 0 {
        lemma_group_labels(gs, sub.drop_last(), source, destination);
        assert(labels_of(group_items(gs, sub, source, destination)) =~= vault_group_names(sub));
    }
}

proof fn lemma_variable_labels(vs: Seq<Variable>)
    ensures
        labels_of(variable_items(vs)) == owned_variable_names(vs),
    decreases vs.len(),
{
    if vs.len() > 0 {
        lemma_variable_labels(vs.drop_last());
        assert(labels_of(variable_items(vs)) =~= owned_variable_names(vs));
    }
}

/// A transfer plans, in this order, the vault-backed connections, then the
/// vault-backed groups, then the secret variables RustConn stores itself
/// (those not kept in KeePass or under a vault entry name of their own),
/// each in list order and each once.
pub proof fn law_transfer_plan_order(
    vs: Seq<Variable>,
    cs: Seq<Connection>,
    gs: Seq<ConnectionGroup>,
    source: SecretBackendType,
    destination: SecretBackendType,
)
    ensures
        labels_of(plan_items(vs, cs, gs, source, destination)) == vault_connection_names(cs)
            + vault_group_names(gs) + owned_variable_names(vs),
{
    let ci = connection_items(gs, cs, source, destination);
    let gi = group_items(gs, gs, source, destination);
    let vi = variable_items(vs);
    lemma_labels_of_concat(ci + gi, vi);
    lemma_labels_of_concat(ci, gi);
    lemma_connection_labels(gs, cs, source, destination);
    lemma_group_labels(gs, gs, source, destination);
    lemma_variable_labels(vs);
}

/// Each secret variable RustConn stores itself has its item among the
/// planned variable items.
proof fn lemma_variable_planned(vs: Seq<Variable>, i: int)
    requires
        0 <= i < vs.len(),
        owned_secret(vs[i]),
    ensures
        exists|j: int| 0 <= j < variable_items(vs).len() && {
            let it = #[trigger] variable_items(vs)[j];
            &&& it.label == vs[i].name@
            &&& it.source_keys == seq!["rustconn/var/"@ + vs[i].name@]
            &&& it.destination_key == "rustconn/var/"@ + vs[i].name@
            &&& it.username is None
        },
    decreases vs.len(),
{
    let rest = variable_items(vs.drop_last());
    if i == vs.len() - 1 {
        let j = rest.len() as int;
        assert(variable_items(vs)[j] == variable_items(vs).last());
    } else {
        lemma_variable_planned(vs.drop_last(), i);
        assert(vs.drop_last()[i] == vs[i]);
        let j = choose|j: int| 0 <= j < rest.len() && {
            let it = #[trigger] rest[j];
            &&& it.label == vs[i].name@
            &&& it.source_keys == seq!["rustconn/var/"@ + vs[i].name@]
            &&& it.destination_key == "rustconn/var/"@ + vs[i].name@
            &&& it.username is None
        };
        assert(variable_items(vs)[j] == rest[j]);
    }
}

/// A transfer moves every secret variable RustConn stores itself (a secret
/// not kept in KeePass nor under a vault entry name of its own) from
/// `rustconn/var/<name>` to `rustconn/var/<name>`: the key the variable's
/// value is read from on both sides, whatever the two backends are, so the
/// moved secret is found again after the transfer.
pub proof fn law_transfer_keeps_variable_keys(
    vs: Seq<Variable>,
    cs: Seq<Connection>,
    gs: Seq<ConnectionGroup>,
    source: SecretBackendType,
    destination: SecretBackendType,
)
    ensures
        forall|i: int|
            0 <= i < vs.len() && vs[i].is_secret && vs[i].kdbx_entry_path is None
                && vs[i].vault_entry_name is None ==> exists|j: int|
                0 <= j < plan_items(vs, cs, gs, source, destination).len() && {
                    let it = #[trigger] plan_items(vs, cs, gs, source, destination)[j];
                    &&& it.label == vs[i].name@
                    &&& it.source_keys == seq!["rustconn/var/"@ + vs[i].name@]
                    &&& it.destination_key == "rustconn/var/"@ + vs[i].name@
                    &&& it.username is None
                },
{
    let ci = connection_items(gs, cs, source, destination);
    let gi = group_items(gs, gs, source, destination);
    let vi = variable_items(vs);
    let all = plan_items(vs, cs, gs, source, destination);
    assert(all == ci + gi + vi);
    assert forall|i: int|
        0 <= i < vs.len() && vs[i].is_secret && vs[i].kdbx_entry_path is None
            && vs[i].vault_entry_name is None implies exists|j: int|
            0 <= j < all.len() && {
                let it = #[trigger] all[j];
                &&& it.label == vs[i].name@
                &&& it.source_keys == seq!["rustconn/var/"@ + vs[i].name@]
                &&& it.destination_key == "rustconn/var/"@ + vs[i].name@
                &&& it.username is None
            } by {
        lemma_variable_planned(vs, i);
        let j = choose|j: int| 0 <= j < vi.len() && {
            let it = #[trigger] vi[j];
            &&& it.label == vs[i].name@
            &&& it.source_keys == seq!["rustconn/var/"@ + vs[i].name@]
            &&& it.destination_key == "rustconn/var/"@ + vs[i].name@
            &&& it.username is None
        };
        assert(all[ci.len() + gi.len() + j] == vi[j]);
    }
}

} // verus!
