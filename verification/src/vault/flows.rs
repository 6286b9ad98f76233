//! Decisions behind saving, deleting, copying and loading vault credentials.
//!
//! Each function here decides *what* a vault operation does — which store, under
//! which key or entry — and hands that back as a plan. The caller performs
//! the plan against the backend.

use vstd::prelude::*;

use crate::ids::{uuid_string, uuid_text};
use crate::text::{trim, trim_is_empty};
use crate::vault::backend::{
    encrypted_file_fallback_enabled, fallback_enabled_spec, is_kdbx, select_backend_for_load, select_spec,
    settings_use_keepass, uses_keepass, SecretBackendType, SecretSettings,
};
use crate::vault::keys::{
    append_protocol, build_entry_path, build_group_entry_path, connection_keys, entry_path,
    generate_store_key_with_group, group_entry_path, group_path_string, group_path_text, store_key,
    strip_rustconn, strip_rustconn_prefix, variable_key, variable_secret_key, vault_keys_for_connection,
    views, with_protocol,
};
use crate::vault::model::{protocol_name, Connection, ConnectionGroup, ProtocolType, Variable};

verus! {

/// Where a password save goes.
#[derive(Debug, Clone, PartialEq, Eq)]
pub enum SavePlan {
    /// Write a KeePass entry with this name, username and (optional) URL.
    Kdbx { entry_name: String, username: String, url: Option<String> },
    /// Write to `backend` under `lookup_key`; if the backend refuses, offer
    /// the encrypted file only when `offer_fallback` is set.
    Backend { backend: SecretBackendType, lookup_key: String, offer_fallback: bool },
    /// KeePass is selected but no database is configured: nothing is written.
    Skip,
}

/// `{protocol}://{host}`.
pub open spec fn url_of(protocol: Seq<char>, host: Seq<char>) -> Seq<char> {
    protocol + "://"@ + host
}

fn make_url(protocol: &str, host: &str) -> (s: String)
    ensures
        s@ == url_of(protocol@, host@),
{
    let mut s = protocol.to_owned();
    s.append("://");
    s.append(host);
    s
}

/// The KeePass entry name a connection's password is saved under: its entry
/// path without the `RustConn/` prefix, plus the protocol.
pub open spec fn kdbx_entry_name(gs: Seq<ConnectionGroup>, c: Connection, protocol: Seq<char>) -> Seq<char> {
    with_protocol(strip_rustconn(entry_path(gs, c)), protocol)
}

/// What saving a connection password writes: a KeePass entry (or nothing,
/// without a database) when KeePass is in use; otherwise one store, to the
/// selected backend, under the group-aware key, with the encrypted-file
/// offer exactly when that fallback is enabled.
pub open spec fn save_plan_matches(
    plan: SavePlan,
    settings: SecretSettings,
    groups: Seq<ConnectionGroup>,
    conn: Option<Connection>,
    conn_name: Seq<char>,
    conn_host: Seq<char>,
    protocol: ProtocolType,
    username: Seq<char>,
) -> bool {
    &&& uses_keepass(settings) ==> match plan {
        SavePlan::Kdbx { entry_name, username: u, url } => settings.kdbx_path is Some
            && entry_name@ == (match conn {
                Some(c) => kdbx_entry_name(groups, c, protocol_name(protocol)),
                None => with_protocol(conn_name, protocol_name(protocol)),
            })
            && u@ == username
            && url is Some && url.unwrap()@ == url_of(protocol_name(protocol), conn_host),
        SavePlan::Skip => settings.kdbx_path is None,
        SavePlan::Backend { .. } => false,
    }
    &&& !uses_keepass(settings) ==> match plan {
        SavePlan::Backend { backend, lookup_key, offer_fallback } => backend == select_spec(settings)
            && lookup_key@ == store_key(conn_name, conn_host, protocol_name(protocol), backend, match conn {
                Some(c) => Some(group_path_text(groups, c.group_id)),
                None => None,
            })
            && offer_fallback == fallback_enabled_spec(settings),
        _ => false,
    }
}

/// The view of an optional connection reference.
pub open spec fn opt_conn(conn: Option<&Connection>) -> Option<Connection> {
    match conn {
        Some(c) => Some(*c),
        None => None,
    }
}

/// Plans saving a connection password (the decision inside
/// `save_password_to_vault`).
pub fn plan_password_save(
    settings: &SecretSettings,
    groups: &Vec<ConnectionGroup>,
    conn: Option<&Connection>,
    conn_name: &str,
    conn_host: &str,
    protocol: ProtocolType,
    username: &str,
) -> (plan: SavePlan)
    ensures
        save_plan_matches(plan, *settings, groups@, opt_conn(conn), conn_name@, conn_host@, protocol, username@),
{
    let protocol_str = protocol.key_name();
    if settings_use_keepass(settings) {
        if settings.kdbx_path.is_none() {
            return SavePlan::Skip;
        }
        let entry_name = match conn {
            Some(c) => {
                let path = build_entry_path(c, groups);
                let base = strip_rustconn_prefix(path.as_str());
                append_protocol(base.as_str(), protocol_str)
            },
            None => append_protocol(conn_name, protocol_str),
        };
        SavePlan::Kdbx {
            entry_name,
            username: username.to_owned(),
            url: Some(make_url(protocol_str, conn_host)),
        }
    } else {
        let backend = select_backend_for_load(settings);
        let lookup_key = match conn {
            Some(c) => {
                let group_path = group_path_string(groups, c.group_id);
                generate_store_key_with_group(conn_name, conn_host, protocol_str, backend, Some(group_path.as_str()))
            },
            None => generate_store_key_with_group(conn_name, conn_host, protocol_str, backend, None),
        };
        SavePlan::Backend { backend, lookup_key, offer_fallback: encrypted_file_fallback_enabled(settings) }
    }
}

/// Everything saving a connection password does, in order: forget that
/// the connection's last vault lookup missed, then make the one write
/// `store` names. No other store is tried; the encrypted file is written
/// only if the user accepts the offer `store` carries.
#[derive(Debug)]
pub struct PasswordSaveSteps {
    /// The connection whose remembered vault miss is dropped.
    pub forget_miss_for: u128,
    /// The single write.
    pub store: SavePlan,
}

/// The steps of `save_password_to_vault` for connection `conn_id`.
pub fn password_save_steps(
    conn_id: u128,
    settings: &SecretSettings,
    groups: &Vec<ConnectionGroup>,
    conn: Option<&Connection>,
    conn_name: &str,
    conn_host: &str,
    protocol: ProtocolType,
    username: &str,
) -> (s: PasswordSaveSteps)
    ensures
        s.forget_miss_for == conn_id,
        save_plan_matches(s.store, *settings, groups@, opt_conn(conn), conn_name@, conn_host@, protocol, username@),
{
    let store = plan_password_save(settings, groups, conn, conn_name, conn_host, protocol, username);
    PasswordSaveSteps { forget_miss_for: conn_id, store }
}

/// Plans saving a group password (the decision inside
/// `save_group_password_to_vault`).
pub fn plan_group_password_save(
    settings: &SecretSettings,
    group_path: &str,
    lookup_key: &str,
    username: &str,
) -> (plan: SavePlan)
    ensures
        uses_keepass(*settings) ==> match plan {
            SavePlan::Kdbx { entry_name, username: u, url } => settings.kdbx_path is Some
                && entry_name@ == strip_rustconn(group_path@) && u@ == username@ && url is None,
            SavePlan::Skip => settings.kdbx_path is None,
            SavePlan::Backend { .. } => false,
        },
        !uses_keepass(*settings) ==> match plan {
            SavePlan::Backend { backend, lookup_key: k, offer_fallback } => backend == select_spec(*settings)
                && k@ == lookup_key@ && offer_fallback == fallback_enabled_spec(*settings),
            _ => false,
        },
{
    if settings_use_keepass(settings) {
        if settings.kdbx_path.is_none() {
            return SavePlan::Skip;
        }
        SavePlan::Kdbx {
            entry_name: strip_rustconn_prefix(group_path),
            username: username.to_owned(),
            url: None,
        }
    } else {
        SavePlan::Backend {
            backend: select_backend_for_load(settings),
            lookup_key: lookup_key.to_owned(),
            offer_fallback: encrypted_file_fallback_enabled(settings),
        }
    }
}

/// What deleting a credential removes.
#[derive(Debug, Clone, PartialEq, Eq)]
pub enum DeletePlan {
    /// Remove this KeePass entry.
    Kdbx { entry_path: String },
    /// Delete every one of these keys from `backend`; the first key's result
    /// is the one reported.
    Keys { backend: SecretBackendType, keys: Vec<String> },
    /// KeePass is selected but no database is configured: nothing to clean.
    Skip,
}

/// Plans deleting a connection's credentials on permanent deletion.
pub fn plan_credential_delete(
    settings: &SecretSettings,
    groups: &Vec<ConnectionGroup>,
    connection: &Connection,
) -> (plan: DeletePlan)
    ensures
        is_kdbx(select_spec(*settings)) ==> match plan {
            DeletePlan::Kdbx { entry_path: p } => settings.kdbx_path is Some && p@ == with_protocol(
                entry_path(groups@, *connection),
                protocol_name(connection.protocol),
            ),
            DeletePlan::Skip => settings.kdbx_path is None,
            DeletePlan::Keys { .. } => false,
        },
        !is_kdbx(select_spec(*settings)) ==> match plan {
            DeletePlan::Keys { backend, keys } => backend == select_spec(*settings) && views(keys@)
                == connection_keys(groups@, *connection, protocol_name(connection.protocol), backend),
            _ => false,
        },
{
    let protocol_str = connection.protocol.key_name();
    let backend = select_backend_for_load(settings);
    if matches!(backend, SecretBackendType::KdbxFile | SecretBackendType::KeePassXc) {
        if settings.kdbx_path.is_none() {
            return DeletePlan::Skip;
        }
        let path = build_entry_path(connection, groups);
        DeletePlan::Kdbx { entry_path: append_protocol(path.as_str(), protocol_str) }
    } else {
        DeletePlan::Keys { backend, keys: vault_keys_for_connection(groups, connection, protocol_str, backend) }
    }
}

/// The result a multi-key delete reports: the primary (first) key's.
pub fn delete_result(results: Vec<Result<(), String>>) -> (r: Result<(), String>)
    ensures
        results@.len() == 0 ==> r == Ok::<(), String>(()),
        results@.len() > 0 ==> r == results@[0],
{
    let mut results = results;
    if results.len() == 0 {
        Ok(())
    } else {
        results.remove(0)
    }
}

/// What a multi-key delete does next.
#[derive(Debug, PartialEq, Eq)]
pub enum DeleteStep {
    /// Delete the key at this index.
    Delete(usize),
    /// Every key has been deleted; report this result.
    Finish(Result<(), String>),
}

/// The next step of deleting every key of a [`DeletePlan::Keys`], given
/// the outcomes of the deletes made so far, in key order: every key is
/// deleted in turn, also after an earlier delete failed; once all are done,
/// the first key's outcome is what the delete reports.
pub fn delete_step(n_keys: usize, done: &Vec<Result<(), String>>) -> (s: DeleteStep)
    ensures
        done@.len() < n_keys ==> s == DeleteStep::Delete(done@.len() as usize),
        done@.len() >= n_keys ==> s == DeleteStep::Finish(
            if done@.len() == 0 {
                Ok(())
            } else {
                done@[0]
            },
        ),
{
    if done.len() < n_keys {
        return DeleteStep::Delete(done.len());
    }
    if done.len() == 0 {
        return DeleteStep::Finish(Ok(()));
    }
    match &done[0] {
        Ok(u) => DeleteStep::Finish(Ok(*u)),
        Err(e) => {
            let c = e.clone();
            assert(done@[0] == Err::<(), String>(c));
            DeleteStep::Finish(Err(c))
        },
    }
}

/// Plans deleting a group's credentials.
pub fn plan_group_credential_delete(
    settings: &SecretSettings,
    groups: &Vec<ConnectionGroup>,
    group: &ConnectionGroup,
) -> (plan: DeletePlan)
    ensures
        is_kdbx(select_spec(*settings)) ==> match plan {
            DeletePlan::Kdbx { entry_path: p } => settings.kdbx_path is Some && p@ == group_entry_path(
                groups@,
                *group,
            ),
            DeletePlan::Skip => settings.kdbx_path is None,
            DeletePlan::Keys { .. } => false,
        },
        !is_kdbx(select_spec(*settings)) ==> match plan {
            DeletePlan::Keys { backend, keys } => backend == select_spec(*settings) && views(keys@)
                == seq![uuid_text(group.id)],
            _ => false,
        },
{
    let backend = select_backend_for_load(settings);
    if matches!(backend, SecretBackendType::KdbxFile | SecretBackendType::KeePassXc) {
        if settings.kdbx_path.is_none() {
            return DeletePlan::Skip;
        }
        DeletePlan::Kdbx { entry_path: build_group_entry_path(group, groups) }
    } else {
        let mut keys: Vec<String> = Vec::new();
        keys.push(uuid_string(group.id));
        proof {
            assert(views(keys@) =~= seq![uuid_text(group.id)]);
        }
        DeletePlan::Keys { backend, keys }
    }
}

/// How a pasted connection's credential is copied.
#[derive(Debug, Clone, PartialEq, Eq)]
pub enum CopyPlan {
    /// Read the KeePass entry `from`; if it holds a password, write it to
    /// `to` with this username and URL.
    Kdbx { from: String, to: String, username: String, url: String },
    /// Try `old_keys` in order on `backend`; store the first hit under
    /// `new_key`.
    Keys { backend: SecretBackendType, old_keys: Vec<String>, new_key: String },
    /// KeePass is selected but no database is configured.
    Skip,
}

/// Plans copying a connection's credential to a pasted copy of it. The
/// protocol of the connection copied from names both entries.
pub fn plan_credential_copy(
    settings: &SecretSettings,
    groups: &Vec<ConnectionGroup>,
    old_conn: &Connection,
    new_conn: &Connection,
) -> (plan: CopyPlan)
    ensures
        is_kdbx(select_spec(*settings)) ==> match plan {
            CopyPlan::Kdbx { from, to, username, url } => settings.kdbx_path is Some
                && from@ == kdbx_entry_name(groups@, *old_conn, protocol_name(old_conn.protocol))
                && to@ == kdbx_entry_name(groups@, *new_conn, protocol_name(old_conn.protocol))
                && username@ == (match new_conn.username { Some(u) => u@, None => seq![] })
                && url@ == url_of(protocol_name(old_conn.protocol), new_conn.host@),
            CopyPlan::Skip => settings.kdbx_path is None,
            CopyPlan::Keys { .. } => false,
        },
        !is_kdbx(select_spec(*settings)) ==> match plan {
            CopyPlan::Keys { backend, old_keys, new_key } => backend == select_spec(*settings)
                && views(old_keys@) == connection_keys(groups@, *old_conn, protocol_name(old_conn.protocol), backend)
                && new_key@ == connection_keys(groups@, *new_conn, protocol_name(old_conn.protocol), backend)[0],
            _ => false,
        },
{
    let protocol_str = old_conn.protocol.key_name();
    let backend = select_backend_for_load(settings);
    if matches!(backend, SecretBackendType::KdbxFile | SecretBackendType::KeePassXc) {
        if settings.kdbx_path.is_none() {
            return CopyPlan::Skip;
        }
        let old_path = build_entry_path(old_conn, groups);
        let old_base = strip_rustconn_prefix(old_path.as_str());
        let new_path = build_entry_path(new_conn, groups);
        let new_base = strip_rustconn_prefix(new_path.as_str());
        let username = match &new_conn.username {
            Some(u) => u.clone(),
            None => String::new(),
        };
        CopyPlan::Kdbx {
            from: append_protocol(old_base.as_str(), protocol_str),
            to: append_protocol(new_base.as_str(), protocol_str),
            username,
            url: make_url(protocol_str, new_conn.host.as_str()),
        }
    } else {
        let old_keys = vault_keys_for_connection(groups, old_conn, protocol_str, backend);
        let mut new_keys = vault_keys_for_connection(groups, new_conn, protocol_str, backend);
        let new_key = new_keys.remove(0);
        CopyPlan::Keys { backend, old_keys, new_key }
    }
}

/// A credential read from the encrypted-file fallback counts only when it
/// carries a non-empty password.
pub fn fallback_read_counts(password: Option<&str>) -> (b: bool)
    ensures
        b == (match password {
            Some(p) => p@.len() > 0,
            None => false,
        }),
{
    match password {
        Some(p) => !p.is_empty(),
        None => false,
    }
}

/// What one read of the encrypted-file fallback gave.
#[derive(Debug)]
pub enum FallbackRead {
    /// A credential, with its password if it has one.
    Found(Option<String>),
    /// Nothing under that key.
    Missing,
    /// The file could not be read; this counts as a miss.
    Failed,
}

/// Whether a fallback read is a hit: a credential with a non-empty
/// password.
pub open spec fn is_fallback_hit(r: FallbackRead) -> bool {
    match r {
        FallbackRead::Found(Some(p)) => p@.len() > 0,
        _ => false,
    }
}

/// The walk over the lookup keys in the encrypted-file fallback, given what
/// the read under each key gave, in key order: the first key that gave a
/// credential with a non-empty password, or `None`. An empty password and
/// a failed read are misses, and the walk goes on.
pub fn first_fallback_hit(reads: &Vec<FallbackRead>) -> (r: Option<usize>)
    ensures
        match r {
            Some(i) => i < reads@.len() && is_fallback_hit(reads@[i as int]) && forall|k: int|
                0 <= k < i ==> !is_fallback_hit(#[trigger] reads@[k]),
            None => forall|k: int| 0 <= k < reads@.len() ==> !is_fallback_hit(#[trigger] reads@[k]),
        },
{
    let mut i: usize = 0;
    while i < reads.len()
        invariant
            i <= reads@.len(),
            forall|k: int| 0 <= k < i ==> !is_fallback_hit(#[trigger] reads@[k]),
        decreases reads@.len() - i,
    {
        let hit = match &reads[i] {
            FallbackRead::Found(Some(p)) => fallback_read_counts(Some(p.as_str())),
            _ => false,
        };
        if hit {
            return Some(i);
        }
        i = i + 1;
    }
    None
}

/// What the encrypted-file fallback walk does next.
#[derive(Debug, Clone, PartialEq, Eq)]
pub enum FallbackStep {
    /// Read the fallback under the lookup key at this index.
    Query(usize),
    /// The walk is over: the key whose credential is used, if any.
    Finish(Option<usize>),
}

/// The next step of reading a credential from the encrypted-file fallback
/// after the selected backend missed, given what the reads so far gave, in
/// key order. A disabled fallback is never read. Otherwise the keys are
/// read in order, an empty password or a failed read counting as a miss,
/// and the walk stops at the first hit; with no hit among `n_keys` keys it
/// finds nothing.
pub fn fallback_step(enabled: bool, n_keys: usize, reads: &Vec<FallbackRead>) -> (s: FallbackStep)
    ensures
        !enabled ==> s == FallbackStep::Finish(None),
        enabled ==> match s {
            FallbackStep::Query(i) => i == reads@.len() && i < n_keys && forall|k: int|
                0 <= k < reads@.len() ==> !is_fallback_hit(#[trigger] reads@[k]),
            FallbackStep::Finish(Some(i)) => i < reads@.len() && is_fallback_hit(reads@[i as int])
                && forall|k: int| 0 <= k < i ==> !is_fallback_hit(#[trigger] reads@[k]),
            FallbackStep::Finish(None) => reads@.len() >= n_keys && forall|k: int|
                0 <= k < reads@.len() ==> !is_fallback_hit(#[trigger] reads@[k]),
        },
{
    if !enabled {
        return FallbackStep::Finish(None);
    }
    match first_fallback_hit(reads) {
        Some(i) => FallbackStep::Finish(Some(i)),
        None => if reads.len() < n_keys {
            FallbackStep::Query(reads.len())
        } else {
            FallbackStep::Finish(None)
        },
    }
}

/// The key a variable's secret is looked up under, and whether it is a
/// custom KeePass path used as-is (blank custom paths count as none).
pub fn variable_lookup_key(var_name: &str, kdbx_entry_path: Option<&str>) -> (r: (String, bool))
    ensures
        match kdbx_entry_path {
            Some(p) => if trim(p@).len() > 0 {
                r.0@ == p@ && r.1
            } else {
                r.0@ == variable_key(var_name@) && !r.1
            },
            None => r.0@ == variable_key(var_name@) && !r.1,
        },
{
    match kdbx_entry_path {
        Some(p) => {
            if trim_is_empty(p) {
                (variable_secret_key(var_name), false)
            } else {
                (p.to_owned(), true)
            }
        },
        None => (variable_secret_key(var_name), false),
    }
}

/// A custom vault entry name, unless blank.
pub fn effective_entry_name(vault_entry_name: Option<&str>) -> (r: Option<String>)
    ensures
        match vault_entry_name {
            Some(n) => if trim(n@).len() > 0 {
                r is Some && r.unwrap()@ == n@
            } else {
                r is None
            },
            None => r is None,
        },
{
    match vault_entry_name {
        Some(n) => {
            if trim_is_empty(n) {
                None
            } else {
                Some(n.to_owned())
            }
        },
        None => None,
    }
}

/// Whether a global variable's value is fetched from the vault: only a
/// secret whose value is empty.
pub fn needs_secret_lookup(is_secret: bool, value: &str) -> (b: bool)
    ensures
        b == (is_secret && value@.len() == 0),
{
    is_secret && value.unicode_len() == 0
}

/// A variable's value after its vault lookup: a secret that was found
/// replaces it; nothing found, or a failed lookup, leaves it as it was.
pub fn apply_secret_lookup(current: String, lookup: Result<Option<String>, String>) -> (v: String)
    ensures
        match lookup {
            Ok(Some(found)) => v@ == found@,
            _ => v@ == current@,
        },
{
    match lookup {
        Ok(Some(found)) => found,
        _ => current,
    }
}

/// What the vault gave for one variable's secret.
#[derive(Debug, Clone)]
pub enum SecretLookup {
    /// The secret.
    Found(String),
    /// Nothing stored.
    Missing,
    /// The lookup failed.
    Failed(String),
}

/// A variable's content other than its value.
pub open spec fn var_key_fields(v: Variable) -> (Seq<char>, bool, Option<Seq<char>>, Option<Seq<char>>) {
    (v.name@, v.is_secret, opt_str(v.kdbx_entry_path), opt_str(v.vault_entry_name))
}

/// The view of an optional string.
pub open spec fn opt_str(o: Option<String>) -> Option<Seq<char>> {
    match o {
        Some(s) => Some(s@),
        None => None,
    }
}

/// The value variable `v` resolves to, given what its lookup gave (if it
/// was looked up): only a secret with an empty value is looked up, and only
/// a found secret replaces it.
pub open spec fn resolved_value(v: Variable, lookup: Option<SecretLookup>) -> Seq<char> {
    if v.is_secret && v.value@.len() == 0 {
        match lookup {
            Some(SecretLookup::Found(p)) => p@,
            _ => v.value@,
        }
    } else {
        v.value@
    }
}

/// The global variables with their secrets filled in. `lookups[i]` is what
/// the vault gave for variable `i`; it is only consulted for a secret whose
/// value is empty (the only variables that are looked up). A missing or
/// failed lookup leaves that variable as it was and touches no other; a
/// variable without a lookup entry stays as it was.
pub fn resolve_global_variables(vars: Vec<Variable>, lookups: &Vec<SecretLookup>) -> (r: Vec<Variable>)
    ensures
        r@.len() == vars@.len(),
        forall|i: int| 0 <= i < r@.len() ==> var_key_fields(#[trigger] r@[i]) == var_key_fields(vars@[i])
            && r@[i].value@ == resolved_value(
                vars@[i],
                if i < lookups@.len() {
                    Some(lookups@[i])
                } else {
                    None
                },
            ),
{
    let ghost orig = vars@;
    let mut rest = vars;
    let n = rest.len();
    assert(orig.len() == n);
    let mut out: Vec<Variable> = Vec::new();
    let mut i: usize = 0;
    while rest.len() > 0
        invariant
            i + rest@.len() == orig.len(),
            orig.len() <= usize::MAX,
            out@.len() == i,
            rest@ == orig.subrange(i as int, orig.len() as int),
            forall|k: int| 0 <= k < i ==> var_key_fields(#[trigger] out@[k]) == var_key_fields(orig[k])
                && out@[k].value@ == resolved_value(
                    orig[k],
                    if k < lookups@.len() {
                        Some(lookups@[k])
                    } else {
                        None
                    },
                ),
        decreases rest@.len(),
    {
        let v = rest.remove(0);
        assert(v == orig[i as int]);
        let Variable { name, value, is_secret, kdbx_entry_path, vault_entry_name } = v;
        let mut new_value = value;
        if needs_secret_lookup(is_secret, new_value.as_str()) && i < lookups.len() {
            match &lookups[i] {
                SecretLookup::Found(p) => {
                    new_value = p.clone();
                },
                _ => {},
            }
        }
        out.push(Variable { name, value: new_value, is_secret, kdbx_entry_path, vault_entry_name });
        i = i + 1;
        assert(rest@ =~= orig.subrange(i as int, orig.len() as int));
    }
    out
}

} // verus!
