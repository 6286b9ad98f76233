use rustconn::vault::flows::{
    apply_secret_lookup, delete_step, fallback_step, first_fallback_hit, needs_secret_lookup,
    resolve_global_variables, DeleteStep, FallbackRead, FallbackStep, SecretLookup,
};
use rustconn::vault::model::Variable;
use rustconn::embedded_rdp::cert::{certificate_files, known_hosts_without};
use rustconn::split_layout::layout_actions;
use rustconn::vault::backend::SecretBackendType;
use rustconn::vault::notices::{
    saved_to_message, settle_timed_lookup, store_failed_notice, store_kind, StoreFailure, StoreKind,
};
use rustconn::vault::transfer::{kdbx_entry_password, CredentialTransferReport, EntryOutcome};

#[test]
fn layouts_fire_one_action_per_split() {
    assert!(layout_actions(false, 3, true, &Vec::new()).is_empty());
    assert_eq!(
        layout_actions(true, 1, false, &Vec::new()),
        vec!["win.split-vertical".to_string(), "win.split-vertical".to_string()]
    );
    assert_eq!(
        layout_actions(true, 2, false, &vec![false]),
        vec![
            "win.split-vertical".to_string(),
            "win.split-horizontal".to_string(),
            "win.split-horizontal".to_string()
        ]
    );
}

#[test]
fn known_hosts_lose_only_the_host_lines() {
    let content = "a.example 3389 x\nb.example 3389 y\na.example 3390 z\n";
    assert_eq!(
        known_hosts_without(content, "a.example", 3389).as_deref(),
        Some("b.example 3389 y\na.example 3390 z\n")
    );
    assert_eq!(known_hosts_without(content, "c.example", 3389), None);
    let files = certificate_files(b"/home/u/.config", "srv", 3389);
    assert_eq!(files.0, b"/home/u/.config/freerdp/server/srv_3389.pem");
    assert_eq!(files.1, b"/home/u/.config/freerdp3/known_hosts2");
    assert_eq!(files.2, b"/home/u/.config/freerdp/known_hosts2");
}

#[test]
fn an_absolute_host_name_replaces_the_certificate_directory() {
    let files = certificate_files(b"/home/u/.config", "/srv", 3389);
    assert_eq!(files.0, b"/srv_3389.pem");
}

#[test]
fn store_failure_notices() {
    let locked = store_failed_notice(
        SecretBackendType::PortableEncryptedFile, "Portable file", StoreFailure::PassphraseRequired, "", false, true,
    );
    assert_eq!(locked.heading, "Portable File Is Locked");
    assert_eq!(locked.responses.len(), 2);
    let bw = store_failed_notice(SecretBackendType::Bitwarden, "Bitwarden", StoreFailure::Other, "vault locked", false, true);
    assert_eq!(bw.heading, "Bitwarden did not accept this password");
    assert!(bw.body.starts_with("vault locked\n\nThe password has not been saved. Fix Bitwarden and save again"));
    assert_eq!(bw.responses.last().unwrap().0, "fallback");
    let keyring = store_failed_notice(SecretBackendType::LibSecret, "Keyring", StoreFailure::Other, "no", true, false);
    assert!(keyring.body.contains("snap connect"));
    assert_eq!(keyring.responses.len(), 2);
    assert_eq!(saved_to_message("Encrypted file"), "Password saved to Encrypted file.");
}

#[test]
fn store_kinds_and_timeouts() {
    assert_eq!(store_kind(SecretBackendType::KdbxFile, false), StoreKind::LibSecret);
    assert_eq!(store_kind(SecretBackendType::LibSecret, true), StoreKind::MacOsKeychain);
    assert_eq!(store_kind(SecretBackendType::Pass, false), StoreKind::Pass);
    assert_eq!(settle_timed_lookup(Some(Ok(None)), "retrieve", 45), Ok(None));
    let timed_out = settle_timed_lookup(None, "retrieve by entry name", 45).unwrap_err();
    assert!(timed_out.contains("45"));
}

#[test]
fn the_report_counts_every_entry_once() {
    let mut r = CredentialTransferReport::new();
    r.record("a", EntryOutcome::Copied { dropped: Vec::new() });
    r.record("b", EntryOutcome::Copied { dropped: vec!["domain".to_string()] });
    r.record("c", EntryOutcome::Missing);
    r.record("d", EntryOutcome::Failed("boom".to_string()));
    assert_eq!(r.transferred, 2);
    assert_eq!(r.missing, 1);
    assert_eq!(r.incomplete, vec![("b".to_string(), "domain".to_string())]);
    assert_eq!(r.failures, vec![("d".to_string(), "boom".to_string())]);
    assert!(!r.is_complete());
    assert!(CredentialTransferReport::new().is_complete());
}

#[test]
fn secret_variables_are_filled_from_the_vault() {
    assert!(needs_secret_lookup(true, ""));
    assert!(!needs_secret_lookup(true, "set"));
    assert!(!needs_secret_lookup(false, ""));
    assert_eq!(apply_secret_lookup(String::new(), Ok(Some("pw".to_string()))), "pw");
    assert_eq!(apply_secret_lookup(String::new(), Ok(None)), "");
    assert_eq!(apply_secret_lookup("old".to_string(), Err("locked".to_string())), "old");
}

#[test]
fn a_wrong_passphrase_gets_its_own_advice() {
    let wrong = store_failed_notice(
        SecretBackendType::PortableEncryptedFile,
        "Portable file",
        StoreFailure::IncorrectPassphrase,
        "",
        false,
        false,
    );
    assert_eq!(wrong.heading, "Passphrase Does Not Open the Portable File");
    assert!(wrong.body.contains("the passphrase the file was created with"));
}

#[test]
fn the_fallback_walk_skips_empty_passwords_and_failures() {
    let reads = vec![
        FallbackRead::Failed,
        FallbackRead::Found(Some(String::new())),
        FallbackRead::Missing,
        FallbackRead::Found(None),
        FallbackRead::Found(Some("pw".to_string())),
        FallbackRead::Found(Some("later".to_string())),
    ];
    assert_eq!(first_fallback_hit(&reads), Some(4));
    assert_eq!(first_fallback_hit(&vec![FallbackRead::Missing, FallbackRead::Failed]), None);
}

#[test]
fn a_kdbx_write_needs_a_password() {
    assert_eq!(kdbx_entry_password(Some("s")), Ok("s".to_string()));
    assert_eq!(kdbx_entry_password(None), Err("the entry has no password to write".to_string()));
}

#[test]
fn a_multi_key_delete_deletes_every_key_and_reports_the_first() {
    let mut done: Vec<Result<(), String>> = Vec::new();
    assert_eq!(delete_step(3, &done), DeleteStep::Delete(0));
    done.push(Err("locked".to_string()));
    assert_eq!(delete_step(3, &done), DeleteStep::Delete(1));
    done.push(Ok(()));
    assert_eq!(delete_step(3, &done), DeleteStep::Delete(2));
    done.push(Err("gone".to_string()));
    assert_eq!(delete_step(3, &done), DeleteStep::Finish(Err("locked".to_string())));
    assert_eq!(delete_step(0, &Vec::new()), DeleteStep::Finish(Ok(())));
}

#[test]
fn the_fallback_walk_is_skipped_when_disabled_and_stops_at_the_first_hit() {
    assert_eq!(fallback_step(false, 3, &Vec::new()), FallbackStep::Finish(None));
    let mut reads = Vec::new();
    assert_eq!(fallback_step(true, 3, &reads), FallbackStep::Query(0));
    reads.push(FallbackRead::Found(Some(String::new())));
    assert_eq!(fallback_step(true, 3, &reads), FallbackStep::Query(1));
    reads.push(FallbackRead::Found(Some("pw".to_string())));
    assert_eq!(fallback_step(true, 3, &reads), FallbackStep::Finish(Some(1)));
    let misses = vec![FallbackRead::Failed, FallbackRead::Missing];
    assert_eq!(fallback_step(true, 2, &misses), FallbackStep::Finish(None));
}

fn var(name: &str, value: &str, is_secret: bool) -> Variable {
    Variable {
        name: name.to_string(),
        value: value.to_string(),
        is_secret,
        kdbx_entry_path: None,
        vault_entry_name: None,
    }
}

#[test]
fn only_empty_secrets_take_the_vault_value() {
    let vars = vec![
        var("a", "", true),
        var("b", "", true),
        var("c", "kept", true),
        var("d", "", false),
        var("e", "", true),
    ];
    let lookups = vec![
        SecretLookup::Found("s1".to_string()),
        SecretLookup::Failed("locked".to_string()),
        SecretLookup::Found("ignored".to_string()),
        SecretLookup::Found("ignored".to_string()),
    ];
    let r = resolve_global_variables(vars, &lookups);
    let values: Vec<&str> = r.iter().map(|v| v.value.as_str()).collect();
    assert_eq!(values, vec!["s1", "", "kept", "", ""]);
    assert_eq!(r[4].name, "e");
}
