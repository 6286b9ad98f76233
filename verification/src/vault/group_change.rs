//! Which vault entries a group rename or move relocates.

use vstd::prelude::*;

use crate::vault::backend::{
    is_keyring, select_backend_for_load, select_spec, settings_use_keepass, uses_keepass, SecretBackendType,
    SecretSettings,
};
use crate::vault::keys::{
    append_protocol, build_entry_path, build_group_entry_path, connection_keys, entry_path, find_from,
    find_group, group_entry_path, vault_keys_for_connection, views, with_protocol,
};
use crate::vault::model::{protocol_name, Connection, ConnectionGroup, PasswordSource};

verus! {

/// Group `gid` is `root` or lies below it, following parent links at most
/// `fuel` times.
pub open spec fn in_subtree_fuel(gs: Seq<ConnectionGroup>, gid: u128, root: u128, fuel: nat) -> bool
    decreases fuel,
{
    if gid == root {
        true
    } else if fuel == 0 {
        false
    } else {
        match find_from(gs, gid, 0) {
            None => false,
            Some(i) => match gs[i].parent_id {
                None => false,
                Some(p) => in_subtree_fuel(gs, p, root, (fuel - 1) as nat),
            },
        }
    }
}

/// Group `gid` is `root` or one of its descendants.
pub open spec fn in_subtree(gs: Seq<ConnectionGroup>, gid: u128, root: u128) -> bool {
    in_subtree_fuel(gs, gid, root, gs.len())
}

fn in_subtree_fuel_exec(groups: &Vec<ConnectionGroup>, gid: u128, root: u128, fuel: usize) -> (b: bool)
    ensures
        b == in_subtree_fuel(groups@, gid, root, fuel as nat),
    decreases fuel,
{
    if gid == root {
        return true;
    }
    if fuel == 0 {
        return false;
    }
    match find_group(groups, gid) {
        None => false,
        Some(i) => match groups[i].parent_id {
            None => false,
            Some(p) => in_subtree_fuel_exec(groups, p, root, fuel - 1),
        },
    }
}

/// Whether group `group_id` is `root` or one of its descendants in `groups`.
pub fn group_in_subtree(groups: &Vec<ConnectionGroup>, group_id: u128, root: u128) -> (b: bool)
    ensures
        b == in_subtree(groups@, group_id, root),
{
    in_subtree_fuel_exec(groups, group_id, root, groups.len())
}

/// A vault-backed connection inside the changed subtree of the new hierarchy.
pub open spec fn affected(ng: Seq<ConnectionGroup>, c: Connection, changed: u128) -> bool {
    c.password_source == PasswordSource::Vault && match c.group_id {
        Some(g) => in_subtree(ng, g, changed),
        None => false,
    }
}

/// The keyring moves a group change requires, as `(old keys, new key, id)`.
pub open spec fn keyring_moves(
    og: Seq<ConnectionGroup>,
    ng: Seq<ConnectionGroup>,
    cs: Seq<Connection>,
    changed: u128,
    b: SecretBackendType,
) -> Seq<(Seq<Seq<char>>, Seq<char>, u128)>
    decreases cs.len(),
{
    if cs.len() == 0 {
        seq![]
    } else {
        let rest = keyring_moves(og, ng, cs.drop_last(), changed, b);
        let c = cs.last();
        let p = protocol_name(c.protocol);
        let old_keys = connection_keys(og, c, p, b);
        let new_key = connection_keys(ng, c, p, b)[0];
        if affected(ng, c, changed) && old_keys[0] != new_key {
            rest.push((old_keys, new_key, c.id))
        } else {
            rest
        }
    }
}

/// The renames of group credentials a group change requires in KeePass,
/// for the groups of `sub` (a prefix of the new hierarchy), in order.
pub open spec fn group_renames(
    og: Seq<ConnectionGroup>,
    ng: Seq<ConnectionGroup>,
    sub: Seq<ConnectionGroup>,
    changed: u128,
) -> Seq<(Seq<char>, Seq<char>)>
    decreases sub.len(),
{
    if sub.len() == 0 {
        seq![]
    } else {
        let rest = group_renames(og, ng, sub.drop_last(), changed);
        let gid = sub.last().id;
        match (find_from(og, gid, 0), find_from(ng, gid, 0)) {
            (Some(oi), Some(ni)) => {
                let old_path = group_entry_path(og, og[oi]);
                let new_path = group_entry_path(ng, ng[ni]);
                if in_subtree(ng, gid, changed) && ng[ni].password_source == Some(PasswordSource::Vault)
                    && old_path != new_path {
                    rest.push((old_path, new_path))
                } else {
                    rest
                }
            },
            _ => rest,
        }
    }
}

/// The renames of connection entries a group change requires in KeePass.
pub open spec fn connection_renames(
    og: Seq<ConnectionGroup>,
    ng: Seq<ConnectionGroup>,
    cs: Seq<Connection>,
    changed: u128,
) -> Seq<(Seq<char>, Seq<char>)>
    decreases cs.len(),
{
    if cs.len() == 0 {
        seq![]
    } else {
        let rest = connection_renames(og, ng, cs.drop_last(), changed);
        let c = cs.last();
        let p = protocol_name(c.protocol);
        if affected(ng, c, changed) && entry_path(og, c) != entry_path(ng, c) {
            rest.push((with_protocol(entry_path(og, c), p), with_protocol(entry_path(ng, c), p)))
        } else {
            rest
        }
    }
}

/// The executable moves and forgotten ids agree with the planned moves.
pub open spec fn moves_match(
    moves: Seq<(Vec<String>, String)>,
    forget: Seq<u128>,
    spec_moves: Seq<(Seq<Seq<char>>, Seq<char>, u128)>,
) -> bool {
    &&& moves.len() == spec_moves.len()
    &&& forget.len() == spec_moves.len()
    &&& forall|k: int| 0 <= k < spec_moves.len() ==> views(#[trigger] moves[k].0@) == spec_moves[k].0
        && moves[k].1@ == spec_moves[k].1 && forget[k] == spec_moves[k].2
}

/// What a group rename or move relocates in the vault.
#[derive(Debug, Clone, PartialEq, Eq)]
pub enum GroupChangePlan {
    /// Rename these KeePass entries, `(old, new)`, group credentials first.
    Kdbx(Vec<(String, String)>),
    /// Move these keyring entries: try the old keys in order, store the first
    /// hit under the new key, then delete it. `forget` lists the connections
    /// whose recorded vault misses are now stale.
    Keyring { moves: Vec<(Vec<String>, String)>, forget: Vec<u128> },
    /// Nothing embeds the group path (or no database is configured).
    Skip,
}

/// The abstract form of a list of renames.
pub open spec fn pair_views(v: Seq<(String, String)>) -> Seq<(Seq<char>, Seq<char>)> {
    v.map_values(|p: (String, String)| (p.0@, p.1@))
}

/// Plans the vault migration after group `changed_group_id` was renamed or
/// moved. KeePass paths embed the whole hierarchy, keyring keys embed the
/// group path; the flat backends need nothing.
pub fn plan_group_change_migration(
    settings: &SecretSettings,
    old_groups: &Vec<ConnectionGroup>,
    new_groups: &Vec<ConnectionGroup>,
    connections: &Vec<Connection>,
    changed_group_id: u128,
) -> (plan: GroupChangePlan)
    ensures
        uses_keepass(*settings) ==> match plan {
            GroupChangePlan::Kdbx(pairs) => settings.kdbx_path is Some && pair_views(pairs@) == group_renames(
                old_groups@,
                new_groups@,
                new_groups@,
                changed_group_id,
            ) + connection_renames(old_groups@, new_groups@, connections@, changed_group_id),
            GroupChangePlan::Skip => settings.kdbx_path is None,
            _ => false,
        },
        !uses_keepass(*settings) && is_keyring(select_spec(*settings)) ==> match plan {
            GroupChangePlan::Keyring { moves, forget } => moves_match(
                moves@,
                forget@,
                keyring_moves(old_groups@, new_groups@, connections@, changed_group_id, select_spec(*settings)),
            ),
            _ => false,
        },
        !uses_keepass(*settings) && !is_keyring(select_spec(*settings)) ==> plan == GroupChangePlan::Skip,
{
    if settings_use_keepass(settings) {
        if settings.kdbx_path.is_none() {
            return GroupChangePlan::Skip;
        }
        let mut pairs: Vec<(String, String)> = Vec::new();
        let mut j: usize = 0;
        while j < new_groups.len()
            invariant
                j <= new_groups@.len(),
                pair_views(pairs@) == group_renames(old_groups@, new_groups@, new_groups@.subrange(0, j as int), changed_group_id),
            decreases new_groups@.len() - j,
        {
            proof {
                assert(new_groups@.subrange(0, j + 1).drop_last() =~= new_groups@.subrange(0, j as int));
            }
            let gid = new_groups[j].id;
            match (find_group(old_groups, gid), find_group(new_groups, gid)) {
                (Some(oi), Some(ni)) => {
                    if group_in_subtree(new_groups, gid, changed_group_id)
                        && new_groups[ni].password_source == Some(PasswordSource::Vault) {
                        let old_path = build_group_entry_path(&old_groups[oi], old_groups);
                        let new_path = build_group_entry_path(&new_groups[ni], new_groups);
                        if old_path != new_path {
                            let ghost before = pair_views(pairs@);
                            pairs.push((old_path, new_path));
                            proof {
                                assert(pair_views(pairs@) =~= before.push((old_path@, new_path@)));
                            }
                        }
                    }
                },
                _ => {},
            }
            j = j + 1;
        }
        assert(new_groups@.subrange(0, new_groups@.len() as int) =~= new_groups@);
        let ghost group_part = pair_views(pairs@);
        let mut i: usize = 0;
        while i < connections.len()
            invariant
                i <= connections@.len(),
                pair_views(pairs@) == group_part + connection_renames(old_groups@, new_groups@, connections@.subrange(0, i as int), changed_group_id),
            decreases connections@.len() - i,
        {
            proof {
                assert(connections@.subrange(0, i + 1).drop_last() =~= connections@.subrange(0, i as int));
            }
            let conn = &connections[i];
            let in_scope = conn.password_source == PasswordSource::Vault && match conn.group_id {
                Some(g) => group_in_subtree(new_groups, g, changed_group_id),
                None => false,
            };
            if in_scope {
                let old_path = build_entry_path(conn, old_groups);
                let new_path = build_entry_path(conn, new_groups);
                if old_path != new_path {
                    let protocol_str = conn.protocol.key_name();
                    let ghost before = pair_views(pairs@);
                    let old_key = append_protocol(old_path.as_str(), protocol_str);
                    let new_key = append_protocol(new_path.as_str(), protocol_str);
                    pairs.push((old_key, new_key));
                    proof {
                        assert(pair_views(pairs@) =~= before.push((old_key@, new_key@)));
                    }
                }
            }
            i = i + 1;
        }
        assert(connections@.subrange(0, connections@.len() as int) =~= connections@);
        return GroupChangePlan::Kdbx(pairs);
    }
    let backend_type = select_backend_for_load(settings);
    if !matches!(backend_type, SecretBackendType::LibSecret | SecretBackendType::MacOsKeychain) {
        return GroupChangePlan::Skip;
    }
    let mut moves: Vec<(Vec<String>, String)> = Vec::new();
    let mut forget: Vec<u128> = Vec::new();
    let mut i: usize = 0;
    while i < connections.len()
        invariant
            i <= connections@.len(),
            backend_type == select_spec(*settings),
            moves_match(moves@, forget@, keyring_moves(old_groups@, new_groups@, connections@.subrange(0, i as int), changed_group_id, backend_type)),
        decreases connections@.len() - i,
    {
        proof {
            assert(connections@.subrange(0, i + 1).drop_last() =~= connections@.subrange(0, i as int));
        }
        let conn = &connections[i];
        let in_scope = conn.password_source == PasswordSource::Vault && match conn.group_id {
            Some(g) => group_in_subtree(new_groups, g, changed_group_id),
            None => false,
        };
        if in_scope {
            let protocol_str = conn.protocol.key_name();
            let old_keys = vault_keys_for_connection(old_groups, conn, protocol_str, backend_type);
            let mut new_keys = vault_keys_for_connection(new_groups, conn, protocol_str, backend_type);
            let new_key = new_keys.remove(0);
            if old_keys[0] != new_key {
                moves.push((old_keys, new_key));
                forget.push(conn.id);
            }
        }
        i = i + 1;
    }
    proof {
        assert(connections@.subrange(0, connections@.len() as int) =~= connections@);
        let sm = keyring_moves(old_groups@, new_groups@, connections@, changed_group_id, backend_type);
        assert(sm == keyring_moves(old_groups@, new_groups@, connections@.subrange(0, i as int), changed_group_id, backend_type));
        assert(!uses_keepass(*settings));
    }
    GroupChangePlan::Keyring { moves, forget }
}

} // verus!
