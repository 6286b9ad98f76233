//! Secret backends, their settings, and the choices made from them.

use vstd::prelude::*;

use crate::text::{decimal, decimal_string};

verus! {

/// A place credentials can be stored.
#[derive(Debug, Clone, Copy, PartialEq, Eq, Structural)]
pub enum SecretBackendType {
    /// KeePassXC through its CLI.
    KeePassXc,
    /// A KDBX database file.
    KdbxFile,
    /// The freedesktop secret service.
    LibSecret,
    /// Bitwarden through `bw`.
    Bitwarden,
    /// 1Password through `op`.
    OnePassword,
    /// Passbolt.
    Passbolt,
    /// The `pass` password store.
    Pass,
    /// The macOS Keychain.
    MacOsKeychain,
    /// The machine-bound encrypted file.
    EncryptedFile,
    /// The passphrase-protected portable encrypted file.
    PortableEncryptedFile,
}

/// The settings that decide where credentials go.
#[derive(Debug, Clone)]
pub struct SecretSettings {
    /// The backend the user selected.
    pub preferred_backend: SecretBackendType,
    /// Whether reads (and the encrypted-file offer) may fall back.
    pub enable_fallback: bool,
    /// Whether the KDBX integration is switched on.
    pub kdbx_enabled: bool,
    /// The KDBX database file, when configured.
    pub kdbx_path: Option<String>,
    /// The KDBX key file, when configured.
    pub kdbx_key_file: Option<String>,
    /// Whether the KDBX database is opened with a password.
    pub kdbx_use_password: bool,
    /// Whether the KDBX database password is available in this session.
    pub kdbx_password_available: bool,
}

/// Keyring backends embed the group path in their keys.
pub open spec fn is_keyring(b: SecretBackendType) -> bool {
    b == SecretBackendType::LibSecret || b == SecretBackendType::MacOsKeychain
}

/// The two KeePass rows.
pub open spec fn is_kdbx(b: SecretBackendType) -> bool {
    b == SecretBackendType::KeePassXc || b == SecretBackendType::KdbxFile
}

/// Backends that shell out to a CLI talking to a remote vault.
pub open spec fn is_cli_backed(b: SecretBackendType) -> bool {
    b == SecretBackendType::Bitwarden || b == SecretBackendType::OnePassword || b
        == SecretBackendType::Passbolt || b == SecretBackendType::Pass
}

/// The backend a load (or a generic save) actually addresses.
pub open spec fn select_spec(s: SecretSettings) -> SecretBackendType {
    if is_kdbx(s.preferred_backend) {
        if s.kdbx_enabled && s.kdbx_path is Some {
            SecretBackendType::KdbxFile
        } else if s.enable_fallback {
            SecretBackendType::LibSecret
        } else {
            s.preferred_backend
        }
    } else {
        s.preferred_backend
    }
}

/// Whether the settings route KeePass paths (the KDBX database proper).
pub open spec fn uses_keepass(s: SecretSettings) -> bool {
    s.kdbx_enabled && is_kdbx(s.preferred_backend)
}

/// Whether the machine-bound encrypted file takes part as the fallback store.
pub open spec fn fallback_enabled_spec(s: SecretSettings) -> bool {
    s.enable_fallback && s.preferred_backend != SecretBackendType::EncryptedFile
}

/// Seconds one vault operation may take on a backend.
pub open spec fn op_timeout_spec(b: SecretBackendType) -> nat {
    if is_cli_backed(b) { 45 } else { 10 }
}

/// Selects the backend used for loading (and for generic saves).
pub fn select_backend_for_load(secrets: &SecretSettings) -> (b: SecretBackendType)
    ensures
        b == select_spec(*secrets),
{
    match secrets.preferred_backend {
        SecretBackendType::KeePassXc | SecretBackendType::KdbxFile => {
            if secrets.kdbx_enabled && secrets.kdbx_path.is_some() {
                SecretBackendType::KdbxFile
            } else if secrets.enable_fallback {
                SecretBackendType::LibSecret
            } else {
                secrets.preferred_backend
            }
        },
        other => other,
    }
}

/// Whether the settings route through the KDBX database itself.
pub fn settings_use_keepass(secrets: &SecretSettings) -> (b: bool)
    ensures
        b == uses_keepass(*secrets),
{
    secrets.kdbx_enabled && matches!(
        secrets.preferred_backend,
        SecretBackendType::KeePassXc | SecretBackendType::KdbxFile
    )
}

/// Whether the encrypted file takes part as the fallback store.
pub fn encrypted_file_fallback_enabled(secret_settings: &SecretSettings) -> (b: bool)
    ensures
        b == fallback_enabled_spec(*secret_settings),
{
    secret_settings.enable_fallback && !matches!(
        secret_settings.preferred_backend,
        SecretBackendType::EncryptedFile
    )
}

/// How long, in seconds, one vault operation may take before the caller
/// stops waiting: longer for CLI-backed backends than for local ones.
pub fn vault_op_timeout(backend: SecretBackendType) -> (secs: u64)
    ensures
        secs as nat == op_timeout_spec(backend),
{
    match backend {
        SecretBackendType::Bitwarden
        | SecretBackendType::OnePassword
        | SecretBackendType::Passbolt
        | SecretBackendType::Pass => 45,
        SecretBackendType::LibSecret
        | SecretBackendType::MacOsKeychain
        | SecretBackendType::KeePassXc
        | SecretBackendType::KdbxFile
        | SecretBackendType::EncryptedFile
        | SecretBackendType::PortableEncryptedFile => 10,
    }
}

/// The message for a vault operation that ran out of its budget.
pub open spec fn timed_out_message(operation: Seq<char>, budget: nat) -> Seq<char> {
    "Vault "@ + operation + " timed out after "@ + decimal(budget) + "s"@
}

/// The message for a vault operation that ran out of its budget, naming the
/// budget that was applied.
pub fn vault_op_timed_out(operation: &str, budget_secs: u64) -> (s: String)
    ensures
        s@ == timed_out_message(operation@, budget_secs as nat),
{
    let mut s = String::from_str("Vault ");
    s.append(operation);
    s.append(" timed out after ");
    let digits = decimal_string(budget_secs);
    s.append(digits.as_str());
    s.append("s");
    s
}

/// Seconds one entry's read or write may take during a credential transfer.
pub const TRANSFER_OP_TIMEOUT_SECS: u64 = 10;

/// The message for a transfer step that ran out of time.
pub open spec fn transfer_timed_out_message(operation: Seq<char>) -> Seq<char> {
    "the "@ + operation + " timed out after "@ + decimal(TRANSFER_OP_TIMEOUT_SECS as nat) + "s"@
}

/// The message for a transfer step that ran out of time.
pub fn timed_out(operation: &str) -> (s: String)
    ensures
        s@ == transfer_timed_out_message(operation@),
{
    let mut s = String::from_str("the ");
    s.append(operation);
    s.append(" timed out after ");
    let digits = decimal_string(TRANSFER_OP_TIMEOUT_SECS);
    s.append(digits.as_str());
    s.append("s");
    s
}

/// CLI-backed backends get a longer budget than every local one.
pub proof fn law_cli_budget_exceeds_local(remote: SecretBackendType, near: SecretBackendType)
    requires
        is_cli_backed(remote),
        !is_cli_backed(near),
    ensures
        op_timeout_spec(remote) > op_timeout_spec(near),
        op_timeout_spec(SecretBackendType::Bitwarden) > 10,
{
}

/// The backend a load addresses is never a KeePass row unless KDBX proper is
/// usable, except when the user switched fallback off.
pub proof fn law_select_kdbx_only_when_usable(s: SecretSettings)
    ensures
        select_spec(s) == SecretBackendType::KdbxFile ==> (s.kdbx_enabled && s.kdbx_path is Some) || (
        s.preferred_backend == SecretBackendType::KdbxFile && !s.enable_fallback),
        !is_kdbx(s.preferred_backend) ==> select_spec(s) == s.preferred_backend,
{
}

} // verus!
