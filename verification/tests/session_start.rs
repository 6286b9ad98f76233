use rustconn::session_start::{
    effective_target, initial_rdp_resolution, jump_destination, kdbx_prefill_database,
    needs_substitution, non_empty, on_rdp_state, on_vnc_state, password_dialog_outcome,
    plan_password_start, vnc_lookup_key, DialogOutcome, StartPlan, ViewerState,
};
use rustconn::vault::backend::{SecretBackendType, SecretSettings};
use rustconn::vault::model::{Connection, ConnectionGroup, PasswordSource, ProtocolType};

#[test]
fn start_plans() {
    assert_eq!(plan_password_start(true, false), StartPlan::UseCached);
    assert_eq!(plan_password_start(false, true), StartPlan::AskPassword);
    assert_eq!(plan_password_start(false, false), StartPlan::Abort);
}

#[test]
fn vault_sourced_connections_always_save() {
    assert_eq!(password_dialog_outcome(None, Some(PasswordSource::Vault)), DialogOutcome::ClearStatus);
    assert_eq!(
        password_dialog_outcome(Some(false), Some(PasswordSource::Vault)),
        DialogOutcome::Start { save: true }
    );
    assert_eq!(
        password_dialog_outcome(Some(false), Some(PasswordSource::Prompt)),
        DialogOutcome::Start { save: false }
    );
    assert_eq!(password_dialog_outcome(Some(true), None), DialogOutcome::Start { save: true });
}

#[test]
fn targets_and_destinations() {
    assert!(needs_substitution("${HOST}.example"));
    assert!(!needs_substitution("$HOST"));
    assert_eq!(jump_destination("bastion", Some("ops")), "ops@bastion");
    assert_eq!(jump_destination("bastion", None), "bastion");
    assert_eq!(effective_target("db", 3389, Some(40001)), ("127.0.0.1".to_string(), 40001));
    assert_eq!(effective_target("db", 3389, None), ("db".to_string(), 3389));
    assert_eq!(non_empty(""), None);
    assert_eq!(non_empty("x").as_deref(), Some("x"));
}

#[test]
fn resolutions_are_aligned_and_bounded() {
    assert_eq!(initial_rdp_resolution(1923, 1081), (1920, 1080));
    assert_eq!(initial_rdp_resolution(100, 100), (640, 480));
}

#[test]
fn viewer_state_effects() {
    let (connected, e) = on_rdp_state(false, ViewerState::Error);
    assert!(!connected && e.close_tab && e.record_failed && e.status_failed);
    let (connected, e) = on_rdp_state(false, ViewerState::Connected);
    assert!(connected && e.mark_connected);
    let (_, e) = on_rdp_state(true, ViewerState::Error);
    assert!(!e.close_tab);
    let (_, e) = on_rdp_state(false, ViewerState::Disconnected);
    assert!(e.stop_recording && e.record_end && !e.mark_disconnected);
    assert!(on_vnc_state(ViewerState::Disconnected).mark_disconnected);
}

#[test]
fn vnc_lookup_keys_and_kdbx_prefill() {
    let g = ConnectionGroup { id: 5, name: "Lab".to_string(), parent_id: None, password_source: None, username: None };
    let c = Connection {
        id: 9,
        name: "pi".to_string(),
        host: "pi.local".to_string(),
        protocol: ProtocolType::Vnc,
        group_id: Some(5),
        username: None,
        password_source: PasswordSource::Prompt,
    };
    assert_eq!(vnc_lookup_key(&c, &vec![g]), "Lab/pi (vnc)");
    let s = SecretSettings {
        preferred_backend: SecretBackendType::KdbxFile,
        enable_fallback: false,
        kdbx_enabled: true,
        kdbx_path: Some("/db.kdbx".to_string()),
        kdbx_key_file: None,
        kdbx_use_password: false,
        kdbx_password_available: false,
    };
    assert_eq!(kdbx_prefill_database(&s).as_deref(), Some("/db.kdbx"));
    let off = SecretSettings { kdbx_enabled: false, ..s };
    assert_eq!(kdbx_prefill_database(&off), None);
}
