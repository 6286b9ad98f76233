//! Lookup keys under which credentials are stored, per backend shape.
//!
//! Three shapes exist: the keyring shape `RustConn/{group path}/{name} ({protocol})`,
//! the KeePass entry path `RustConn/{group path}/{name}` (with a protocol
//! suffix), and the flat `rustconn/{name}` used by every other backend.

use vstd::prelude::*;

use crate::ids::{uuid_string, uuid_text};
use crate::text::{
    chars_of, chars_starts_with, has_prefix, replace_char,
    replace_char_string, string_from_chars, trim, trim_chars, trim_is_empty,
};
use crate::vault::backend::{is_keyring, SecretBackendType};
use crate::vault::model::{Connection, ConnectionGroup};

verus! {

/// The views of a sequence of strings.
pub open spec fn views(v: Seq<String>) -> Seq<Seq<char>> {
    v.map_values(|s: String| s@)
}

/// Index of the first group with id `id` at or after `i`.
pub open spec fn find_from(gs: Seq<ConnectionGroup>, id: u128, i: int) -> Option<int>
    decreases gs.len() - i,
{
    if i < 0 || i >= gs.len() {
        None
    } else if gs[i].id == id {
        Some(i)
    } else {
        find_from(gs, id, i + 1)
    }
}

/// Group names from the root down to group `id`, following parent links at
/// most `fuel` times (so a cyclic hierarchy still yields a finite path).
pub open spec fn group_path_fuel(gs: Seq<ConnectionGroup>, id: u128, fuel: nat) -> Seq<Seq<char>>
    decreases fuel,
{
    if fuel == 0 {
        seq![]
    } else {
        match find_from(gs, id, 0) {
            None => seq![],
            Some(i) => {
                let prefix = match gs[i].parent_id {
                    Some(p) => group_path_fuel(gs, p, (fuel - 1) as nat),
                    None => seq![],
                };
                prefix.push(gs[i].name@)
            },
        }
    }
}

/// Group names from the root down to group `id`.
pub open spec fn group_path(gs: Seq<ConnectionGroup>, id: u128) -> Seq<Seq<char>> {
    group_path_fuel(gs, id, gs.len())
}

/// `parts.join(sep)`.
pub open spec fn join(parts: Seq<Seq<char>>, sep: Seq<char>) -> Seq<char>
    decreases parts.len(),
{
    if parts.len() == 0 {
        seq![]
    } else if parts.len() == 1 {
        parts[0]
    } else {
        join(parts.drop_last(), sep) + sep + parts.last()
    }
}

/// The `/`-joined group path of an optional group (empty when ungrouped).
pub open spec fn group_path_text(gs: Seq<ConnectionGroup>, gid: Option<u128>) -> Seq<char> {
    match gid {
        Some(g) => join(group_path(gs, g), "/"@),
        None => seq![],
    }
}

/// The key a save writes for `name` on `backend` (see
/// [`generate_store_key_with_group`]).
pub open spec fn store_key(
    name: Seq<char>,
    host: Seq<char>,
    protocol: Seq<char>,
    backend: SecretBackendType,
    group: Option<Seq<char>>,
) -> Seq<char> {
    if is_keyring(backend) {
        let n = replace_char(trim(name), '/', '-');
        let suffix = n + " ("@ + protocol + ")"@;
        match group {
            Some(p) => if p.len() > 0 {
                "RustConn/"@ + p + "/"@ + suffix
            } else {
                "RustConn/"@ + suffix
            },
            None => suffix,
        }
    } else {
        "rustconn/"@ + (if trim(name).len() == 0 { host } else { name })
    }
}

/// The KeePass entry path of a connection: `RustConn/{group path}/{name}`.
pub open spec fn entry_path(gs: Seq<ConnectionGroup>, c: Connection) -> Seq<char> {
    let p = group_path_text(gs, c.group_id);
    if p.len() > 0 {
        "RustConn/"@ + p + "/"@ + c.name@
    } else {
        "RustConn/"@ + c.name@
    }
}

/// The KeePass entry path of a group's own credential:
/// `RustConn/Groups/{group path}`.
pub open spec fn group_entry_path(gs: Seq<ConnectionGroup>, g: ConnectionGroup) -> Seq<char> {
    let prefix = match g.parent_id {
        Some(p) => group_path(gs, p),
        None => seq![],
    };
    "RustConn/Groups/"@ + join(prefix.push(g.name@), "/"@)
}

/// `s.strip_prefix("RustConn/").unwrap_or(s)`.
pub open spec fn strip_rustconn(s: Seq<char>) -> Seq<char> {
    if has_prefix(s, "RustConn/"@) {
        s.subrange(9, s.len() as int)
    } else {
        s
    }
}

/// `{base} ({protocol})`.
pub open spec fn with_protocol(base: Seq<char>, protocol: Seq<char>) -> Seq<char> {
    base + " ("@ + protocol + ")"@
}

/// The identifier the flat shape uses: the name, or the host for a blank name.
pub open spec fn flat_identifier(c: Connection) -> Seq<char> {
    if trim(c.name@).len() == 0 { c.host@ } else { c.name@ }
}

/// Consecutive duplicates removed (`Vec::dedup`).
pub open spec fn dedup(s: Seq<Seq<char>>) -> Seq<Seq<char>>
    decreases s.len(),
{
    if s.len() <= 1 {
        s
    } else if s.last() == s[s.len() - 2] {
        dedup(s.drop_last())
    } else {
        dedup(s.drop_last()).push(s.last())
    }
}

/// Every key a connection's credential may live under on a non-KeePass
/// backend, most-current format first, before duplicates are dropped.
pub open spec fn connection_keys_raw(
    gs: Seq<ConnectionGroup>,
    c: Connection,
    protocol: Seq<char>,
    backend: SecretBackendType,
) -> Seq<Seq<char>> {
    if is_keyring(backend) {
        let grouped = store_key(c.name@, c.host@, protocol, backend, Some(group_path_text(gs, c.group_id)));
        seq![
            grouped,
            grouped,
            with_protocol(c.name@, protocol),
            "rustconn/"@ + flat_identifier(c),
            uuid_text(c.id),
        ]
    } else {
        seq![store_key(c.name@, c.host@, protocol, backend, None), uuid_text(c.id)]
    }
}

/// Every key a connection's credential may live under on a non-KeePass
/// backend, most-current format first.
pub open spec fn connection_keys(
    gs: Seq<ConnectionGroup>,
    c: Connection,
    protocol: Seq<char>,
    backend: SecretBackendType,
) -> Seq<Seq<char>> {
    dedup(connection_keys_raw(gs, c, protocol, backend))
}

/// Index of the first group with id `id`.
pub fn find_group(groups: &Vec<ConnectionGroup>, id: u128) -> (r: Option<usize>)
    ensures
        match r {
            Some(i) => find_from(groups@, id, 0) == Some(i as int) && i < groups@.len()
                && groups@[i as int].id == id,
            None => find_from(groups@, id, 0) is None,
        },
{
    let mut i: usize = 0;
    while i < groups.len()
        invariant
            i <= groups@.len(),
            find_from(groups@, id, 0) == find_from(groups@, id, i as int),
        decreases groups@.len() - i,
    {
        if groups[i].id == id {
            return Some(i);
        }
        i = i + 1;
    }
    None
}

fn group_path_fuel_exec(groups: &Vec<ConnectionGroup>, id: u128, fuel: usize) -> (r: Vec<String>)
    ensures
        views(r@) == group_path_fuel(groups@, id, fuel as nat),
    decreases fuel,
{
    if fuel == 0 {
        return Vec::new();
    }
    match find_group(groups, id) {
        None => Vec::new(),
        Some(i) => {
            let mut prefix = match groups[i].parent_id {
                Some(p) => group_path_fuel_exec(groups, p, fuel - 1),
                None => Vec::new(),
            };
            let ghost before = views(prefix@);
            prefix.push(groups[i].name.clone());
            proof {
                assert(views(prefix@) =~= before.push(groups@[i as int].name@));
            }
            prefix
        },
    }
}

/// Group names from the root down to group `group_id`.
pub fn resolve_group_path(group_id: u128, groups: &Vec<ConnectionGroup>) -> (r: Vec<String>)
    ensures
        views(r@) == group_path(groups@, group_id),
{
    group_path_fuel_exec(groups, group_id, groups.len())
}

/// `parts.join(sep)`.
pub fn join_strings(parts: &Vec<String>, sep: &str) -> (r: String)
    ensures
        r@ == join(views(parts@), sep@),
{
    let mut r = String::new();
    let mut i: usize = 0;
    while i < parts.len()
        invariant
            i <= parts@.len(),
            r@ == join(views(parts@).subrange(0, i as int), sep@),
        decreases parts@.len() - i,
    {
        proof {
            let pre = views(parts@).subrange(0, i as int);
            let post = views(parts@).subrange(0, i + 1);
            assert(post.drop_last() =~= pre);
        }
        if i > 0 {
            r.append(sep);
        }
        r.append(parts[i].as_str());
        i = i + 1;
    }
    assert(views(parts@).subrange(0, parts@.len() as int) =~= views(parts@));
    r
}

/// The `/`-joined group path of an optional group.
pub fn group_path_string(groups: &Vec<ConnectionGroup>, group_id: Option<u128>) -> (r: String)
    ensures
        r@ == group_path_text(groups@, group_id),
{
    match group_id {
        Some(g) => {
            let parts = resolve_group_path(g, groups);
            join_strings(&parts, "/")
        },
        None => String::new(),
    }
}

/// Generates the key a save writes for a connection on `backend_type`.
///
/// Keyring backends use `RustConn/{group_path}/{name} ({protocol})` (the
/// name trimmed, `/` replaced by `-`), or `{name} ({protocol})` when no group
/// path is given at all. Every other backend uses `rustconn/{name}`, falling
/// back to the host for a blank name.
pub fn generate_store_key_with_group(
    conn_name: &str,
    conn_host: &str,
    protocol_str: &str,
    backend_type: SecretBackendType,
    group_path: Option<&str>,
) -> (key: String)
    ensures
        key@ == store_key(conn_name@, conn_host@, protocol_str@, backend_type, match group_path {
            Some(p) => Some(p@),
            None => None,
        }),
{
    if matches!(backend_type, SecretBackendType::LibSecret | SecretBackendType::MacOsKeychain) {
        let trimmed = trim_chars(conn_name);
        let name = replace_char_string(&trimmed, '/', '-');
        let mut suffix = name;
        suffix.append(" (");
        suffix.append(protocol_str);
        suffix.append(")");
        match group_path {
            Some(path) => {
                if path.is_empty() {
                    let mut key = String::from_str("RustConn/");
                    key.append(suffix.as_str());
                    key
                } else {
                    let mut key = String::from_str("RustConn/");
                    key.append(path);
                    key.append("/");
                    key.append(suffix.as_str());
                    key
                }
            },
            None => suffix,
        }
    } else {
        let mut key = String::from_str("rustconn/");
        if trim_is_empty(conn_name) {
            key.append(conn_host);
        } else {
            key.append(conn_name);
        }
        key
    }
}

/// Generates the key a save writes for a connection without a group path.
pub fn generate_store_key(
    conn_name: &str,
    conn_host: &str,
    protocol_str: &str,
    backend_type: SecretBackendType,
) -> (key: String)
    ensures
        key@ == store_key(conn_name@, conn_host@, protocol_str@, backend_type, None),
{
    generate_store_key_with_group(conn_name, conn_host, protocol_str, backend_type, None)
}

/// The KeePass entry path of a connection.
pub fn build_entry_path(connection: &Connection, groups: &Vec<ConnectionGroup>) -> (r: String)
    ensures
        r@ == entry_path(groups@, *connection),
{
    let path = group_path_string(groups, connection.group_id);
    let mut r = String::from_str("RustConn/");
    if !path.as_str().is_empty() {
        r.append(path.as_str());
        r.append("/");
    }
    r.append(connection.name.as_str());
    r
}

/// The KeePass entry path of a group's own credential.
pub fn build_group_entry_path(group: &ConnectionGroup, groups: &Vec<ConnectionGroup>) -> (r: String)
    ensures
        r@ == group_entry_path(groups@, *group),
{
    let mut parts = match group.parent_id {
        Some(p) => resolve_group_path(p, groups),
        None => Vec::new(),
    };
    let ghost before = views(parts@);
    parts.push(group.name.clone());
    proof {
        assert(views(parts@) =~= before.push(group.name@));
    }
    let joined = join_strings(&parts, "/");
    let mut r = String::from_str("RustConn/Groups/");
    r.append(joined.as_str());
    r
}

/// `s.strip_prefix("RustConn/").unwrap_or(s)`.
pub fn strip_rustconn_prefix(s: &str) -> (r: String)
    ensures
        r@ == strip_rustconn(s@),
{
    let v = chars_of(s);
    let p = chars_of("RustConn/");
    proof {
        reveal_strlit("RustConn/");
    }
    if chars_starts_with(&v, &p) {
        string_from_chars(&v, 9, v.len())
    } else {
        s.to_owned()
    }
}

/// `{base} ({protocol})`.
pub fn append_protocol(base: &str, protocol_str: &str) -> (r: String)
    ensures
        r@ == with_protocol(base@, protocol_str@),
{
    let mut r = base.to_owned();
    r.append(" (");
    r.append(protocol_str);
    r.append(")");
    r
}

/// The key a variable's secret value is stored under: `rustconn/var/{name}`.
pub open spec fn variable_key(name: Seq<char>) -> Seq<char> {
    "rustconn/var/"@ + name
}

/// The key a variable's secret value is stored under.
pub fn variable_secret_key(var_name: &str) -> (r: String)
    ensures
        r@ == variable_key(var_name@),
{
    let mut r = String::from_str("rustconn/var/");
    r.append(var_name);
    r
}

/// `v` with consecutive duplicates removed.
pub fn dedup_strings(v: Vec<String>) -> (r: Vec<String>)
    ensures
        views(r@) == dedup(views(v@)),
{
    let mut r: Vec<String> = Vec::new();
    let mut i: usize = 0;
    while i < v.len()
        invariant
            i <= v@.len(),
            views(r@) == dedup(views(v@).subrange(0, i as int)),
        decreases v@.len() - i,
    {
        let ghost pre = views(v@).subrange(0, i as int);
        let ghost post = views(v@).subrange(0, i + 1);
        proof {
            assert(post.drop_last() =~= pre);
            assert(post.last() == v@[i as int]@);
            if i > 0 {
                assert(post[post.len() - 2] == v@[i - 1]@);
            }
        }
        let dup = i > 0 && v[i] == v[i - 1];
        if !dup {
            let ghost before = views(r@);
            r.push(v[i].clone());
            proof {
                assert(views(r@) =~= before.push(v@[i as int]@));
            }
        }
        i = i + 1;
    }
    assert(views(v@).subrange(0, v@.len() as int) =~= views(v@));
    r
}

/// Every key a connection's credential may live under on a non-KeePass
/// backend, most-current format first.
///
/// Keyring backends lead with the group-scoped key, then keep the formats
/// earlier releases wrote (the flat `{name} ({protocol})` key and the
/// `rustconn/{name}` key); every backend ends with the connection UUID.
pub fn vault_keys_for_connection(
    groups: &Vec<ConnectionGroup>,
    connection: &Connection,
    protocol_str: &str,
    backend_type: SecretBackendType,
) -> (keys: Vec<String>)
    ensures
        views(keys@) == connection_keys(groups@, *connection, protocol_str@, backend_type),
        keys@.len() >= 1,
{
    let mut keys: Vec<String> = Vec::new();
    if matches!(backend_type, SecretBackendType::LibSecret | SecretBackendType::MacOsKeychain) {
        let group_path = group_path_string(groups, connection.group_id);
        let primary = generate_store_key_with_group(
            connection.name.as_str(),
            connection.host.as_str(),
            protocol_str,
            backend_type,
            Some(group_path.as_str()),
        );
        let hierarchical = primary.clone();
        keys.push(primary);
        keys.push(hierarchical);
        keys.push(append_protocol(connection.name.as_str(), protocol_str));
        let mut legacy = String::from_str("rustconn/");
        if trim_is_empty(connection.name.as_str()) {
            legacy.append(connection.host.as_str());
        } else {
            legacy.append(connection.name.as_str());
        }
        keys.push(legacy);
    } else {
        keys.push(
            generate_store_key(
                connection.name.as_str(),
                connection.host.as_str(),
                protocol_str,
                backend_type,
            ),
        );
    }
    keys.push(uuid_string(connection.id));
    proof {
        assert(views(keys@) =~= connection_keys_raw(groups@, *connection, protocol_str@, backend_type));
    }
    let r = dedup_strings(keys);
    proof {
        lemma_dedup_nonempty(connection_keys_raw(groups@, *connection, protocol_str@, backend_type));
    }
    r
}

/// The first key of a connection is the key the save path writes.
pub proof fn lemma_connection_keys_first(
    gs: Seq<ConnectionGroup>,
    c: Connection,
    protocol: Seq<char>,
    backend: SecretBackendType,
)
    ensures
        connection_keys(gs, c, protocol, backend).len() >= 1,
        connection_keys(gs, c, protocol, backend)[0] == connection_keys_raw(gs, c, protocol, backend)[0],
{
    lemma_dedup_nonempty(connection_keys_raw(gs, c, protocol, backend));
}

/// Removing consecutive duplicates loses no value.
pub proof fn lemma_dedup_keeps_all(s: Seq<Seq<char>>)
    ensures
        forall|i: int| 0 <= i < s.len() ==> dedup(s).contains(#[trigger] s[i]),
    decreases s.len(),
{
    if s.len() > 1 {
        let r = s.drop_last();
        lemma_dedup_keeps_all(r);
        assert forall|i: int| 0 <= i < s.len() implies dedup(s).contains(#[trigger] s[i]) by {
            if i < s.len() - 1 {
                assert(r[i] == s[i]);
                assert(dedup(r).contains(r[i]));
                let k = choose|k: int| 0 <= k < dedup(r).len() && dedup(r)[k] == r[i];
                if s.last() != s[s.len() - 2] {
                    assert(dedup(s)[k] == dedup(r)[k]);
                }
            } else {
                if s.last() == s[s.len() - 2] {
                    assert(r[s.len() - 2] == s[s.len() - 2]);
                    assert(dedup(r).contains(r[s.len() - 2]));
                } else {
                    assert(dedup(s).last() == s.last());
                    assert(dedup(s)[dedup(s).len() - 1] == s[i]);
                }
            }
        }
    } else if s.len() == 1 {
        assert(dedup(s)[0] == s[0]);
    }
}

/// Removing consecutive duplicates keeps a non-empty sequence non-empty and
/// keeps its first element.
pub proof fn lemma_dedup_nonempty(s: Seq<Seq<char>>)
    requires
        s.len() >= 1,
    ensures
        dedup(s).len() >= 1,
        dedup(s)[0] == s[0],
    decreases s.len(),
{
    if s.len() > 1 {
        lemma_dedup_nonempty(s.drop_last());
        if s.last() != s[s.len() - 2] {
            assert(dedup(s) == dedup(s.drop_last()).push(s.last()));
        }
    }
}

/// On a keyring backend, two connections of the same name in groups with
/// different paths are stored under different keys: the group path is part
/// of the key, so one never overwrites the other's password.
pub proof fn law_keyring_keys_differ_between_groups(
    gs: Seq<ConnectionGroup>,
    c1: Connection,
    c2: Connection,
    protocol: Seq<char>,
    backend: SecretBackendType,
)
    requires
        is_keyring(backend),
        c1.name@ == c2.name@,
        group_path_text(gs, c1.group_id) != group_path_text(gs, c2.group_id),
    ensures
        connection_keys(gs, c1, protocol, backend)[0] != connection_keys(gs, c2, protocol, backend)[0],
{
    lemma_connection_keys_first(gs, c1, protocol, backend);
    lemma_connection_keys_first(gs, c2, protocol, backend);
    let p1 = group_path_text(gs, c1.group_id);
    let p2 = group_path_text(gs, c2.group_id);
    let n = replace_char(trim(c1.name@), '/', '-');
    let suffix = n + " ("@ + protocol + ")"@;
    let k1 = store_key(c1.name@, c1.host@, protocol, backend, Some(p1));
    let k2 = store_key(c2.name@, c2.host@, protocol, backend, Some(p2));
    let root = "RustConn/"@;
    if k1 == k2 {
        if p1.len() > 0 && p2.len() > 0 {
            let a = root + p1 + "/"@;
            let b = root + p2 + "/"@;
            assert(k1 == a + suffix);
            assert(k2 == b + suffix);
            assert(a.len() == b.len());
            assert(a =~= k1.subrange(0, a.len() as int));
            assert(b =~= k2.subrange(0, b.len() as int));
            assert(p1 =~= a.subrange(root.len() as int, (root.len() + p1.len()) as int));
            assert(p2 =~= b.subrange(root.len() as int, (root.len() + p2.len()) as int));
        } else if p1.len() > 0 {
            assert(k1.len() == root.len() + p1.len() + 1 + suffix.len());
            assert(k2.len() == root.len() + suffix.len());
        } else if p2.len() > 0 {
            assert(k2.len() == root.len() + p2.len() + 1 + suffix.len());
            assert(k1.len() == root.len() + suffix.len());
        } else {
            assert(p1 =~= p2);
        }
    }
}

} // verus!
