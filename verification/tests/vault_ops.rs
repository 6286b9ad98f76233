use rustconn::vault::backend::{
    select_backend_for_load, vault_op_timed_out, vault_op_timeout, SecretBackendType,
    SecretSettings,
};
use rustconn::vault::keys::{
    generate_store_key, generate_store_key_with_group, vault_keys_for_connection,
};
use rustconn::vault::flows::{password_save_steps, SavePlan};
use rustconn::vault::migration::plan_vault_key_migration;
use rustconn::vault::model::{
    Connection, ConnectionGroup, PasswordSource, ProtocolType, Variable,
};
use rustconn::vault::transfer::{
    plan_credential_transfer, transfer_key_for_group, transfer_keys_for_connection,
};

fn default_secret_settings(backend: SecretBackendType) -> SecretSettings {
    SecretSettings {
        preferred_backend: backend,
        enable_fallback: false,
        kdbx_enabled: false,
        kdbx_path: None,
        kdbx_key_file: None,
        kdbx_use_password: false,
        kdbx_password_available: false,
    }
}

fn keepass_settings() -> SecretSettings {
    SecretSettings {
        preferred_backend: SecretBackendType::KeePassXc,
        kdbx_enabled: true,
        kdbx_path: Some("/tmp/does-not-need-to-exist.kdbx".to_string()),
        ..default_secret_settings(SecretBackendType::KeePassXc)
    }
}

fn group(id: u128, name: &str) -> ConnectionGroup {
    ConnectionGroup {
        id,
        name: name.to_string(),
        parent_id: None,
        password_source: None,
        username: None,
    }
}

fn ssh_connection(name: &str, group_id: Option<u128>) -> Connection {
    Connection {
        id: 0x5a5a_0000_0000_4000_8000_0000_0000_0001,
        name: name.to_string(),
        host: "10.0.0.1".to_string(),
        protocol: ProtocolType::Ssh,
        group_id,
        username: None,
        password_source: PasswordSource::Prompt,
    }
}

fn vault_connection(name: &str, group_id: Option<u128>) -> Connection {
    let mut conn = ssh_connection(name, group_id);
    conn.password_source = PasswordSource::Vault;
    conn
}

const ORACLE: u128 = 0x1111_1111_1111_4111_8111_1111_1111_1111;
const PVE: u128 = 0x2222_2222_2222_4222_8222_2222_2222_2222;

// ── vault_op_timeout ─────────────────────────────────────────────

#[test]
fn a_cli_backed_backend_gets_a_longer_budget_than_a_local_one() {
    let cli = [
        SecretBackendType::Bitwarden,
        SecretBackendType::OnePassword,
        SecretBackendType::Passbolt,
        SecretBackendType::Pass,
    ];
    let local = [
        SecretBackendType::LibSecret,
        SecretBackendType::MacOsKeychain,
        SecretBackendType::KeePassXc,
        SecretBackendType::KdbxFile,
        SecretBackendType::EncryptedFile,
        SecretBackendType::PortableEncryptedFile,
    ];
    for remote in cli {
        for near in local {
            assert!(
                vault_op_timeout(remote) > vault_op_timeout(near),
                "{remote:?} must outlast {near:?}"
            );
        }
    }
}

#[test]
fn the_bitwarden_budget_clears_the_measured_worst_case() {
    let budget = vault_op_timeout(SecretBackendType::Bitwarden);
    assert!(budget > 10, "10s is the budget that expired mid-write; got {budget}s");
}

#[test]
fn the_timeout_message_names_the_budget_that_was_applied() {
    let budget = vault_op_timeout(SecretBackendType::Bitwarden);
    let message = vault_op_timed_out("store", budget);
    assert!(message.contains("store"), "operation missing: {message}");
    assert!(message.contains(&budget.to_string()), "budget missing: {message}");
    assert!(!message.contains("10s"), "still reporting the old hardcoded budget: {message}");
}

// ── select_backend_for_load ──────────────────────────────────────

#[test]
fn select_backend_bitwarden() {
    let s = default_secret_settings(SecretBackendType::Bitwarden);
    assert_eq!(select_backend_for_load(&s), SecretBackendType::Bitwarden);
}

#[test]
fn select_backend_onepassword() {
    let s = default_secret_settings(SecretBackendType::OnePassword);
    assert_eq!(select_backend_for_load(&s), SecretBackendType::OnePassword);
}

#[test]
fn select_backend_passbolt() {
    let s = default_secret_settings(SecretBackendType::Passbolt);
    assert_eq!(select_backend_for_load(&s), SecretBackendType::Passbolt);
}

#[test]
fn select_backend_pass() {
    let s = default_secret_settings(SecretBackendType::Pass);
    assert_eq!(select_backend_for_load(&s), SecretBackendType::Pass);
}

#[test]
fn select_backend_libsecret() {
    let s = default_secret_settings(SecretBackendType::LibSecret);
    assert_eq!(select_backend_for_load(&s), SecretBackendType::LibSecret);
}

#[test]
fn select_backend_keepass_with_kdbx_enabled() {
    let s = SecretSettings {
        preferred_backend: SecretBackendType::KeePassXc,
        kdbx_enabled: true,
        kdbx_path: Some("/tmp/test.kdbx".to_string()),
        ..default_secret_settings(SecretBackendType::KeePassXc)
    };
    assert_eq!(select_backend_for_load(&s), SecretBackendType::KdbxFile);
}

#[test]
fn select_backend_keepass_without_kdbx_falls_back() {
    let s = SecretSettings {
        preferred_backend: SecretBackendType::KeePassXc,
        kdbx_enabled: false,
        kdbx_path: None,
        enable_fallback: true,
        ..default_secret_settings(SecretBackendType::KeePassXc)
    };
    assert_eq!(select_backend_for_load(&s), SecretBackendType::LibSecret);
}

#[test]
fn select_backend_keepass_no_fallback() {
    let s = SecretSettings {
        preferred_backend: SecretBackendType::KeePassXc,
        kdbx_enabled: false,
        kdbx_path: None,
        enable_fallback: false,
        ..default_secret_settings(SecretBackendType::KeePassXc)
    };
    assert_eq!(select_backend_for_load(&s), SecretBackendType::KeePassXc);
}

// ── generate_store_key ───────────────────────────────────────────

#[test]
fn store_key_libsecret_format() {
    let key = generate_store_key("My Server", "10.0.0.1", "ssh", SecretBackendType::LibSecret);
    assert_eq!(key, "My Server (ssh)");
}

#[test]
fn store_key_libsecret_strips_slashes() {
    let key = generate_store_key("Prod/Web-01", "10.0.0.1", "ssh", SecretBackendType::LibSecret);
    assert_eq!(key, "Prod-Web-01 (ssh)");
}

#[test]
fn store_key_bitwarden_format() {
    let key = generate_store_key("My Server", "10.0.0.1", "ssh", SecretBackendType::Bitwarden);
    assert_eq!(key, "rustconn/My Server");
}

#[test]
fn store_key_empty_name_falls_back_to_host() {
    let key = generate_store_key("", "10.0.0.1", "rdp", SecretBackendType::Bitwarden);
    assert_eq!(key, "rustconn/10.0.0.1");
}

#[test]
fn store_key_whitespace_name_falls_back_to_host() {
    let key = generate_store_key("   ", "10.0.0.1", "rdp", SecretBackendType::OnePassword);
    assert_eq!(key, "rustconn/10.0.0.1");
}

#[test]
fn store_key_pass_format() {
    let key = generate_store_key("DB Server", "db.local", "ssh", SecretBackendType::Pass);
    assert_eq!(key, "rustconn/DB Server");
}

#[test]
fn store_key_macos_keychain_is_hierarchical_like_libsecret() {
    let key = generate_store_key_with_group(
        "admin",
        "10.0.0.1",
        "ssh",
        SecretBackendType::MacOsKeychain,
        Some("oracle"),
    );
    assert_eq!(key, "RustConn/oracle/admin (ssh)");
}

// ── vault_keys_for_connection ────────────────────────────────────

#[test]
fn keyring_keys_lead_with_the_group_scoped_key() {
    let g = group(ORACLE, "oracle");
    let conn = ssh_connection("admin", Some(g.id));
    let keys = vault_keys_for_connection(&vec![g.clone()], &conn, "ssh", SecretBackendType::LibSecret);
    assert_eq!(keys.first().map(String::as_str), Some("RustConn/oracle/admin (ssh)"));
    assert!(keys.iter().any(|k| k == "admin (ssh)"), "legacy flat key must stay: {keys:?}");
    let uuid_key = uuid::Uuid::from_u128(conn.id).to_string();
    assert!(keys.iter().any(|k| *k == uuid_key), "UUID key must stay: {keys:?}");
}

#[test]
fn keyring_keys_differ_between_groups_for_the_same_name() {
    let oracle = group(ORACLE, "oracle");
    let pve = group(PVE, "pve");
    let groups = vec![oracle.clone(), pve.clone()];
    let in_oracle = ssh_connection("admin", Some(oracle.id));
    let in_pve = ssh_connection("admin", Some(pve.id));
    let oracle_key = vault_keys_for_connection(&groups, &in_oracle, "ssh", SecretBackendType::LibSecret);
    let pve_key = vault_keys_for_connection(&groups, &in_pve, "ssh", SecretBackendType::LibSecret);
    assert_eq!(oracle_key.first().map(String::as_str), Some("RustConn/oracle/admin (ssh)"));
    assert_eq!(pve_key.first().map(String::as_str), Some("RustConn/pve/admin (ssh)"));
    assert_ne!(oracle_key.first(), pve_key.first());
}

#[test]
fn flat_backend_keys_use_the_rustconn_prefix() {
    let conn = ssh_connection("admin", None);
    let keys = vault_keys_for_connection(&Vec::new(), &conn, "ssh", SecretBackendType::Bitwarden);
    assert_eq!(keys.first().map(String::as_str), Some("rustconn/admin"));
}

// ── plan_vault_key_migration ─────────────────────────────────────

#[test]
fn plan_migration_is_none_when_the_edit_changed_nothing_in_the_key() {
    let settings = default_secret_settings(SecretBackendType::LibSecret);
    let conn = ssh_connection("admin", None);
    // A description or tag edit leaves every key field alone.
    let edited = conn.clone();
    assert!(plan_vault_key_migration(&settings, &Vec::new(), &Vec::new(), &conn, &edited).is_none());
}

#[test]
fn plan_migration_detects_a_rename() {
    let settings = default_secret_settings(SecretBackendType::LibSecret);
    let g = group(ORACLE, "oracle");
    let old = ssh_connection("admin", Some(g.id));
    let mut new = old.clone();
    new.name = "dba".to_string();
    let groups = vec![g];
    let plan = plan_vault_key_migration(&settings, &groups, &groups, &old, &new).unwrap();
    assert_eq!(plan.new_key, "RustConn/oracle/dba (ssh)");
    assert_eq!(plan.old_keys.first().map(String::as_str), Some("RustConn/oracle/admin (ssh)"));
    assert!(!plan.is_keepass);
}

#[test]
fn plan_migration_detects_a_group_change() {
    let settings = default_secret_settings(SecretBackendType::LibSecret);
    let oracle = group(ORACLE, "oracle");
    let pve = group(PVE, "pve");
    let groups = vec![oracle.clone(), pve.clone()];
    let old = ssh_connection("admin", Some(oracle.id));
    let mut new = old.clone();
    new.group_id = Some(pve.id);
    let plan = plan_vault_key_migration(&settings, &groups, &groups, &old, &new).unwrap();
    assert_eq!(plan.new_key, "RustConn/pve/admin (ssh)");
    assert_eq!(plan.old_keys.first().map(String::as_str), Some("RustConn/oracle/admin (ssh)"));
}

#[test]
fn plan_migration_detects_a_protocol_change() {
    let settings = default_secret_settings(SecretBackendType::LibSecret);
    let old = ssh_connection("admin", None);
    let mut new = old.clone();
    new.protocol = ProtocolType::Rdp;
    let plan = plan_vault_key_migration(&settings, &Vec::new(), &Vec::new(), &old, &new).unwrap();
    assert_eq!(plan.new_key, "RustConn/admin (rdp)");
    assert_eq!(plan.old_keys.first().map(String::as_str), Some("RustConn/admin (ssh)"));
}

#[test]
fn plan_migration_handles_name_group_and_protocol_at_once() {
    let settings = default_secret_settings(SecretBackendType::LibSecret);
    let oracle = group(ORACLE, "oracle");
    let pve = group(PVE, "pve");
    let groups = vec![oracle.clone(), pve.clone()];
    let old = ssh_connection("admin", Some(oracle.id));
    let mut new = old.clone();
    new.name = "dba".to_string();
    new.group_id = Some(pve.id);
    new.protocol = ProtocolType::Rdp;
    let plan = plan_vault_key_migration(&settings, &groups, &groups, &old, &new).unwrap();
    assert_eq!(plan.new_key, "RustConn/pve/dba (rdp)");
    assert_eq!(plan.old_keys.first().map(String::as_str), Some("RustConn/oracle/admin (ssh)"));
}

#[test]
fn plan_migration_keepass_uses_hierarchical_entry_paths() {
    let settings = keepass_settings();
    let g = group(ORACLE, "oracle");
    let old = ssh_connection("admin", Some(g.id));
    let mut new = old.clone();
    new.name = "dba".to_string();
    let groups = vec![g];
    let plan = plan_vault_key_migration(&settings, &groups, &groups, &old, &new).unwrap();
    assert!(plan.is_keepass);
    assert_eq!(plan.new_key, "RustConn/oracle/dba (ssh)");
    assert_eq!(plan.old_keys.first().map(String::as_str), Some("RustConn/oracle/admin (ssh)"));
}

#[test]
fn plan_migration_flat_backend_ignores_a_group_change() {
    let settings = default_secret_settings(SecretBackendType::Bitwarden);
    let oracle = group(ORACLE, "oracle");
    let pve = group(PVE, "pve");
    let groups = vec![oracle.clone(), pve.clone()];
    let old = ssh_connection("admin", Some(oracle.id));
    let mut new = old.clone();
    new.group_id = Some(pve.id);
    assert!(plan_vault_key_migration(&settings, &groups, &groups, &old, &new).is_none());
}

#[test]
fn plan_migration_flat_backend_detects_a_rename() {
    let settings = default_secret_settings(SecretBackendType::Bitwarden);
    let old = ssh_connection("admin", None);
    let mut new = old.clone();
    new.name = "dba".to_string();
    let plan = plan_vault_key_migration(&settings, &Vec::new(), &Vec::new(), &old, &new).unwrap();
    assert_eq!(plan.new_key, "rustconn/dba");
    assert_eq!(plan.old_keys.first().map(String::as_str), Some("rustconn/admin"));
}

// ── credential transfer ──────────────────────────────────────────

#[test]
fn transfer_destination_key_matches_what_the_save_path_writes() {
    let g = group(ORACLE, "Prod");
    let conn = vault_connection("web", Some(g.id));
    let groups = vec![g];
    for backend in [
        SecretBackendType::LibSecret,
        SecretBackendType::MacOsKeychain,
        SecretBackendType::Bitwarden,
        SecretBackendType::OnePassword,
        SecretBackendType::Passbolt,
        SecretBackendType::Pass,
        SecretBackendType::EncryptedFile,
        SecretBackendType::PortableEncryptedFile,
    ] {
        let transfer = transfer_keys_for_connection(&groups, &conn, "ssh", backend);
        let expected = vault_keys_for_connection(&groups, &conn, "ssh", backend)[0].clone();
        assert_eq!(transfer.first(), Some(&expected), "{backend:?}: a key nothing reads");
    }
}

#[test]
fn transfer_kdbx_key_matches_the_kdbx_save_path() {
    let g = group(ORACLE, "Prod");
    let conn = vault_connection("web", Some(g.id));
    let groups = vec![g];
    let keys = transfer_keys_for_connection(&groups, &conn, "ssh", SecretBackendType::KdbxFile);
    assert_eq!(keys, vec!["Prod/web (ssh)".to_string()]);
}

#[test]
fn transfer_group_key_is_the_uuid_off_kdbx_and_a_path_on_it() {
    let g = group(ORACLE, "Prod");
    let groups = vec![g.clone()];
    assert_eq!(
        transfer_key_for_group(&groups, &g, SecretBackendType::LibSecret),
        uuid::Uuid::from_u128(g.id).to_string(),
        "every non-KDBX backend keys group credentials by UUID"
    );
    assert_eq!(
        transfer_key_for_group(&groups, &g, SecretBackendType::KdbxFile),
        "Groups/Prod",
        "KDBX keys them by entry path, prefix stripped"
    );
}

#[test]
fn plan_refuses_when_two_entries_would_share_a_destination_key() {
    let prod = group(ORACLE, "Prod");
    let staging = group(PVE, "Staging");
    let groups = vec![prod.clone(), staging.clone()];
    let connections = vec![
        vault_connection("web", Some(prod.id)),
        vault_connection("web", Some(staging.id)),
    ];
    let plan = plan_credential_transfer(
        &Vec::new(),
        &connections,
        &groups,
        SecretBackendType::LibSecret,
        SecretBackendType::PortableEncryptedFile,
    );
    assert_eq!(plan.items.len(), 2);
    assert_eq!(plan.collisions, vec![vec!["web".to_string(), "web".to_string()]]);
    let keyring_plan = plan_credential_transfer(
        &Vec::new(),
        &connections,
        &groups,
        SecretBackendType::PortableEncryptedFile,
        SecretBackendType::LibSecret,
    );
    assert!(keyring_plan.collisions.is_empty());
}

#[test]
fn plan_skips_variables_that_point_at_an_external_entry() {
    let variables = vec![
        Variable {
            name: "ours".to_string(),
            value: String::new(),
            is_secret: true,
            kdbx_entry_path: None,
            vault_entry_name: None,
        },
        Variable {
            name: "theirs".to_string(),
            value: String::new(),
            is_secret: true,
            kdbx_entry_path: Some("Internet/MyRouter".to_string()),
            vault_entry_name: None,
        },
        Variable {
            name: "plain".to_string(),
            value: String::new(),
            is_secret: false,
            kdbx_entry_path: None,
            vault_entry_name: None,
        },
    ];
    let plan = plan_credential_transfer(
        &variables,
        &Vec::new(),
        &Vec::new(),
        SecretBackendType::LibSecret,
        SecretBackendType::PortableEncryptedFile,
    );
    let labels: Vec<&str> = plan.items.iter().map(|i| i.label.as_str()).collect();
    assert_eq!(labels, vec!["ours"]);
}

#[test]
fn saving_a_password_forgets_the_miss_and_writes_once_to_the_selected_backend() {
    let settings = default_secret_settings(SecretBackendType::LibSecret);
    let groups = vec![group(1, "Prod")];
    let conn = ssh_connection("web", Some(1));
    let steps = password_save_steps(77, &settings, &groups, Some(&conn), "web", "10.0.0.1", ProtocolType::Ssh, "root");
    assert_eq!(steps.forget_miss_for, 77);
    match steps.store {
        SavePlan::Backend { backend, lookup_key, offer_fallback } => {
            assert_eq!(backend, select_backend_for_load(&settings));
            assert_eq!(
                lookup_key,
                generate_store_key_with_group("web", "10.0.0.1", "ssh", backend, Some("Prod"))
            );
            assert!(!offer_fallback);
        }
        other => panic!("expected one backend store, got {other:?}"),
    }
}
