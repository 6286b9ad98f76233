//! Where a connection's credential must move after an edit changed its key.

use vstd::prelude::*;

use crate::vault::backend::{select_backend_for_load, select_spec, settings_use_keepass, uses_keepass, SecretSettings};
use crate::ids::uuid_text;
use crate::vault::keys::{
    append_protocol, build_entry_path, connection_keys, connection_keys_raw, entry_path,
    vault_keys_for_connection, views, with_protocol,
};
use crate::vault::model::{protocol_name, Connection, ConnectionGroup};

verus! {

/// Where a credential lives and where it must end up. `old_keys` is ordered
/// most-current format first.
#[derive(Debug)]
pub struct VaultKeyMigration {
    /// Keys the credential may currently live under.
    pub old_keys: Vec<String>,
    /// The key it must be stored under after the edit.
    pub new_key: String,
    /// Whether the keys are KeePass entry paths.
    pub is_keepass: bool,
}

/// The old keys, new key and KeePass flag of an edit, before deciding
/// whether anything moved.
pub open spec fn migration_keys(
    s: SecretSettings,
    og: Seq<ConnectionGroup>,
    ng: Seq<ConnectionGroup>,
    oc: Connection,
    nc: Connection,
) -> (Seq<Seq<char>>, Seq<char>, bool) {
    if uses_keepass(s) {
        (
            seq![with_protocol(entry_path(og, oc), protocol_name(oc.protocol))],
            with_protocol(entry_path(ng, nc), protocol_name(nc.protocol)),
            true,
        )
    } else {
        let b = select_spec(s);
        (
            connection_keys(og, oc, protocol_name(oc.protocol), b),
            connection_keys(ng, nc, protocol_name(nc.protocol), b)[0],
            false,
        )
    }
}

/// The migration an edit requires: `None` when the edit left the current
/// key where it was.
pub open spec fn migration_spec(
    s: SecretSettings,
    og: Seq<ConnectionGroup>,
    ng: Seq<ConnectionGroup>,
    oc: Connection,
    nc: Connection,
) -> Option<(Seq<Seq<char>>, Seq<char>, bool)> {
    let (old_keys, new_key, kp) = migration_keys(s, og, ng, oc, nc);
    if old_keys[0] == new_key {
        None
    } else {
        Some((old_keys, new_key, kp))
    }
}

/// Computes the key migration for a connection edit, or `None` when the edit
/// cannot have changed the lookup key.
pub fn plan_vault_key_migration(
    settings: &SecretSettings,
    old_groups: &Vec<ConnectionGroup>,
    new_groups: &Vec<ConnectionGroup>,
    old_conn: &Connection,
    new_conn: &Connection,
) -> (r: Option<VaultKeyMigration>)
    ensures
        match r {
            Some(m) => migration_spec(*settings, old_groups@, new_groups@, *old_conn, *new_conn) == Some(
                (views(m.old_keys@), m.new_key@, m.is_keepass),
            ),
            None => migration_spec(*settings, old_groups@, new_groups@, *old_conn, *new_conn) is None,
        },
{
    let old_protocol = old_conn.protocol.key_name();
    let new_protocol = new_conn.protocol.key_name();
    let is_keepass = settings_use_keepass(settings);
    let (old_keys, new_key) = if is_keepass {
        let old_base = build_entry_path(old_conn, old_groups);
        let new_base = build_entry_path(new_conn, new_groups);
        let mut old_keys: Vec<String> = Vec::new();
        old_keys.push(append_protocol(old_base.as_str(), old_protocol));
        proof {
            assert(views(old_keys@) =~= seq![with_protocol(entry_path(old_groups@, *old_conn), protocol_name(old_conn.protocol))]);
        }
        (old_keys, append_protocol(new_base.as_str(), new_protocol))
    } else {
        let backend_type = select_backend_for_load(settings);
        let old_keys = vault_keys_for_connection(old_groups, old_conn, old_protocol, backend_type);
        let mut new_keys = vault_keys_for_connection(new_groups, new_conn, new_protocol, backend_type);
        let new_key = new_keys.remove(0);
        (old_keys, new_key)
    };
    let unchanged = old_keys.len() > 0 && old_keys[0] == new_key;
    if unchanged {
        None
    } else {
        Some(VaultKeyMigration { old_keys, new_key, is_keepass })
    }
}

/// Whether an edit moved the connection's vault lookup key.
pub fn vault_key_changed_by_edit(
    settings: &SecretSettings,
    old_groups: &Vec<ConnectionGroup>,
    new_groups: &Vec<ConnectionGroup>,
    old_conn: &Connection,
    new_conn: &Connection,
) -> (b: bool)
    ensures
        b == (migration_spec(*settings, old_groups@, new_groups@, *old_conn, *new_conn) is Some),
{
    plan_vault_key_migration(settings, old_groups, new_groups, old_conn, new_conn).is_some()
}

/// An edit that changes neither the name, nor the group path, nor the
/// protocol, nor the host or id leaves the key alone: no migration.
pub proof fn law_untouched_key_needs_no_migration(
    s: SecretSettings,
    gs: Seq<ConnectionGroup>,
    oc: Connection,
    nc: Connection,
)
    requires
        oc.name@ == nc.name@,
        oc.host@ == nc.host@,
        oc.protocol == nc.protocol,
        oc.group_id == nc.group_id,
        oc.id == nc.id,
    ensures
        migration_spec(s, gs, gs, oc, nc) is None,
{
    let b = select_spec(s);
    if !uses_keepass(s) {
        crate::vault::keys::lemma_connection_keys_first(gs, oc, protocol_name(oc.protocol), b);
        crate::vault::keys::lemma_connection_keys_first(gs, nc, protocol_name(nc.protocol), b);
    }
}

/// What an edit's migration carries. On a non-KeePass backend it looks for
/// the credential under every key the old connection's credential may live
/// under, formats written by earlier releases included (the connection's
/// UUID among them), current key first, and stores it under the key the
/// edited connection is looked up under first. On KeePass it renames the old
/// entry (`<entry path> (<protocol>)`) to the new one. No migration is
/// planned only when the edit left that current key where it must end up.
pub proof fn law_migration_looks_under_every_old_key(
    s: SecretSettings,
    og: Seq<ConnectionGroup>,
    ng: Seq<ConnectionGroup>,
    oc: Connection,
    nc: Connection,
)
    ensures
        match migration_spec(s, og, ng, oc, nc) {
            Some((old_keys, new_key, kp)) => if uses_keepass(s) {
                &&& kp
                &&& old_keys == seq![entry_path(og, oc) + " ("@ + protocol_name(oc.protocol) + ")"@]
                &&& new_key == entry_path(ng, nc) + " ("@ + protocol_name(nc.protocol) + ")"@
            } else {
                let lookup = connection_keys(og, oc, protocol_name(oc.protocol), select_spec(s));
                &&& !kp
                &&& forall|i: int| 0 <= i < lookup.len() ==> old_keys.contains(#[trigger] lookup[i])
                &&& forall|i: int|
                    0 <= i < connection_keys_raw(og, oc, protocol_name(oc.protocol), select_spec(s)).len()
                        ==> old_keys.contains(
                        #[trigger] connection_keys_raw(og, oc, protocol_name(oc.protocol), select_spec(s))[i],
                    )
                &&& old_keys.contains(uuid_text(oc.id))
                &&& old_keys[0] == lookup[0]
                &&& new_key == connection_keys(ng, nc, protocol_name(nc.protocol), select_spec(s))[0]
                &&& new_key != old_keys[0]
            },
            None => if uses_keepass(s) {
                entry_path(og, oc) + " ("@ + protocol_name(oc.protocol) + ")"@ == entry_path(ng, nc)
                    + " ("@ + protocol_name(nc.protocol) + ")"@
            } else {
                connection_keys(og, oc, protocol_name(oc.protocol), select_spec(s))[0] == connection_keys(
                    ng,
                    nc,
                    protocol_name(nc.protocol),
                    select_spec(s),
                )[0]
            },
        },
{
    let b = select_spec(s);
    if !uses_keepass(s) {
        let raw = connection_keys_raw(og, oc, protocol_name(oc.protocol), b);
        let lookup = connection_keys(og, oc, protocol_name(oc.protocol), b);
        crate::vault::keys::lemma_dedup_keeps_all(raw);
        crate::vault::keys::lemma_connection_keys_first(og, oc, protocol_name(oc.protocol), b);
        if crate::vault::backend::is_keyring(b) {
            assert(raw[4] == uuid_text(oc.id));
            assert(lookup.contains(raw[4]));
        } else {
            assert(raw[1] == uuid_text(oc.id));
            assert(lookup.contains(raw[1]));
        }
        assert forall|i: int| 0 <= i < lookup.len() implies lookup.contains(#[trigger] lookup[i]) by {}
    }
}

} // verus!
