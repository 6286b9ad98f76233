//! What the user is told when a credential could not be stored, and which
//! concrete store a backend choice resolves to.

use vstd::prelude::*;

use crate::vault::backend::{SecretBackendType, is_keyring};

verus! {

/// Why a store refused a credential, as far as the advice depends on it.
#[derive(Debug, Clone, Copy, PartialEq, Eq, Structural)]
pub enum StoreFailure {
    /// The portable file has not been unlocked in this session.
    PassphraseRequired,
    /// The passphrase in force does not open the portable file.
    IncorrectPassphrase,
    /// Any other failure.
    Other,
}

/// A dialog's heading, body and responses (id, label), in order.
pub struct Notice {
    /// The heading.
    pub heading: String,
    /// The body text.
    pub body: String,
    /// The responses, as (id, label) pairs.
    pub responses: Vec<(String, String)>,
}

/// The heading and body for a locked or wrongly unlocked portable file.
pub open spec fn portable_locked_text(wrong_passphrase: bool) -> (Seq<char>, Seq<char>) {
    if wrong_passphrase {
        (
            "Passphrase Does Not Open the Portable File"@,
            "The password was not saved. The passphrase in use does not decrypt the portable credential file. Open Settings, then Secrets, and enter the passphrase the file was created with."@,
        )
    } else {
        (
            "Portable File Is Locked"@,
            "The password was not saved because the portable credential file has not been unlocked in this session. Open Settings, then Secrets, and enter its passphrase."@,
        )
    }
}

/// The recovery advice for a backend that refused a credential.
pub open spec fn recovery_text(backend: SecretBackendType, backend_name: Seq<char>, is_snap: bool) -> Seq<char> {
    if is_keyring(backend) {
        if is_snap {
            "The system keyring is not accessible. Run: sudo snap connect rustconn:password-manager-service — or open Settings, then Secrets, and choose another backend."@
        } else {
            "No system keyring is responding. Open Settings, then Secrets, and choose another backend such as Encrypted file or KeePassXC."@
        }
    } else {
        "Fix "@ + backend_name + " and save again, or choose a different backend in Settings, then Secrets."@
    }
}

/// The offer to save to the encrypted file instead.
pub open spec fn fallback_offer_text() -> Seq<char> {
    "You can also save it to this computer's encrypted file instead — it will still be found when you connect."@
}

/// The body of the store-failure dialog.
pub open spec fn store_failed_body(cause: Seq<char>, recovery: Seq<char>, offer_fallback: bool) -> Seq<char> {
    let head = cause + "\n\nThe password has not been saved. "@ + recovery;
    if offer_fallback {
        head + "\n\n"@ + fallback_offer_text()
    } else {
        head
    }
}

/// The views of a list of (id, label) pairs.
pub open spec fn response_views(v: Seq<(String, String)>) -> Seq<(Seq<char>, Seq<char>)> {
    v.map_values(|p: (String, String)| (p.0@, p.1@))
}

/// The dialog shown when `backend` (named `backend_name`) refused a
/// credential with `cause`. A locked portable file gets its own advice, with
/// Close and Open Settings; otherwise the advice depends on the backend, and
/// the encrypted file is offered as a destination when `offer_fallback`.
pub fn store_failed_notice(
    backend: SecretBackendType,
    backend_name: &str,
    failure: StoreFailure,
    cause: &str,
    is_snap: bool,
    offer_fallback: bool,
) -> (n: Notice)
    ensures
        failure != StoreFailure::Other ==> ({
            let t = portable_locked_text(failure == StoreFailure::IncorrectPassphrase);
            &&& n.heading@ == t.0
            &&& n.body@ == t.1
            &&& response_views(n.responses@) == seq![
                ("close"@, "Close"@),
                ("settings"@, "Open Settings"@),
            ]
        }),
        failure == StoreFailure::Other ==> ({
            &&& n.heading@ == backend_name@ + " did not accept this password"@
            &&& n.body@ == store_failed_body(
                cause@,
                recovery_text(backend, backend_name@, is_snap),
                offer_fallback,
            )
            &&& response_views(n.responses@) == seq![
                ("close"@, "Cancel"@),
                ("settings"@, "Open Settings"@),
            ] + (if offer_fallback {
                seq![("fallback"@, "Save to This Computer"@)]
            } else {
                seq![]
            })
        }),
{
    match failure {
        StoreFailure::PassphraseRequired | StoreFailure::IncorrectPassphrase => {
            let wrong = match failure {
                StoreFailure::IncorrectPassphrase => true,
                _ => false,
            };
            let (heading, body) = if wrong {
                (
                    String::from_str("Passphrase Does Not Open the Portable File"),
                    String::from_str(
                        "The password was not saved. The passphrase in use does not decrypt the portable credential file. Open Settings, then Secrets, and enter the passphrase the file was created with.",
                    ),
                )
            } else {
                (
                    String::from_str("Portable File Is Locked"),
                    String::from_str(
                        "The password was not saved because the portable credential file has not been unlocked in this session. Open Settings, then Secrets, and enter its passphrase.",
                    ),
                )
            };
            let mut responses: Vec<(String, String)> = Vec::new();
            responses.push((String::from_str("close"), String::from_str("Close")));
            responses.push((String::from_str("settings"), String::from_str("Open Settings")));
            assert(response_views(responses@) =~= seq![
                ("close"@, "Close"@),
                ("settings"@, "Open Settings"@),
            ]);
            Notice { heading, body, responses }
        },
        StoreFailure::Other => {
            let mut heading = backend_name.to_owned();
            heading.append(" did not accept this password");
            let keyring = match backend {
                SecretBackendType::LibSecret | SecretBackendType::MacOsKeychain => true,
                _ => false,
            };
            let recovery = if keyring {
                if is_snap {
                    String::from_str(
                        "The system keyring is not accessible. Run: sudo snap connect rustconn:password-manager-service — or open Settings, then Secrets, and choose another backend.",
                    )
                } else {
                    String::from_str(
                        "No system keyring is responding. Open Settings, then Secrets, and choose another backend such as Encrypted file or KeePassXC.",
                    )
                }
            } else {
                let mut r = String::from_str("Fix ");
                r.append(backend_name);
                r.append(" and save again, or choose a different backend in Settings, then Secrets.");
                r
            };
            let mut body = cause.to_owned();
            body.append("\n\nThe password has not been saved. ");
            body.append(recovery.as_str());
            if offer_fallback {
                body.append("\n\n");
                body.append(
                    "You can also save it to this computer's encrypted file instead — it will still be found when you connect.",
                );
            }
            let mut responses: Vec<(String, String)> = Vec::new();
            responses.push((String::from_str("close"), String::from_str("Cancel")));
            responses.push((String::from_str("settings"), String::from_str("Open Settings")));
            if offer_fallback {
                responses.push(
                    (String::from_str("fallback"), String::from_str("Save to This Computer")),
                );
            }
            assert(response_views(responses@) =~= seq![
                ("close"@, "Cancel"@),
                ("settings"@, "Open Settings"@),
            ] + (if offer_fallback {
                seq![("fallback"@, "Save to This Computer"@)]
            } else {
                seq![]
            }));
            Notice { heading, body, responses }
        },
    }
}

/// The toast after a credential went to the store the user chose.
pub fn saved_to_message(destination_name: &str) -> (m: String)
    ensures
        m@ == "Password saved to "@ + destination_name@ + "."@,
{
    let mut m = String::from_str("Password saved to ");
    m.append(destination_name);
    m.append(".");
    m
}

/// The concrete store a backend choice is served by.
#[derive(Debug, Clone, Copy, PartialEq, Eq, Structural)]
pub enum StoreKind {
    /// Bitwarden, after an automatic unlock.
    Bitwarden,
    /// 1Password, with the service-account token when configured.
    OnePassword,
    /// Passbolt, with the server and passphrase when configured.
    Passbolt,
    /// The `pass` store.
    Pass,
    /// The macOS Keychain.
    MacOsKeychain,
    /// The freedesktop secret service.
    LibSecret,
    /// The machine-bound encrypted file.
    EncryptedFile,
    /// The passphrase-protected portable file.
    PortableEncryptedFile,
}

/// The store a backend choice resolves to. The two KeePass choices go to
/// the system keyring here (KeePass proper is reached through its own
/// path), and the keyring is the Keychain on macOS.
pub open spec fn store_kind_spec(backend: SecretBackendType, macos: bool) -> StoreKind {
    match backend {
        SecretBackendType::Bitwarden => StoreKind::Bitwarden,
        SecretBackendType::OnePassword => StoreKind::OnePassword,
        SecretBackendType::Passbolt => StoreKind::Passbolt,
        SecretBackendType::Pass => StoreKind::Pass,
        SecretBackendType::EncryptedFile => StoreKind::EncryptedFile,
        SecretBackendType::PortableEncryptedFile => StoreKind::PortableEncryptedFile,
        _ => if macos {
            StoreKind::MacOsKeychain
        } else {
            StoreKind::LibSecret
        },
    }
}

/// The store a backend choice resolves to (see [`store_kind_spec`]).
pub fn store_kind(backend: SecretBackendType, macos: bool) -> (k: StoreKind)
    ensures
        k == store_kind_spec(backend, macos),
{
    match backend {
        SecretBackendType::Bitwarden => StoreKind::Bitwarden,
        SecretBackendType::OnePassword => StoreKind::OnePassword,
        SecretBackendType::Passbolt => StoreKind::Passbolt,
        SecretBackendType::Pass => StoreKind::Pass,
        SecretBackendType::EncryptedFile => StoreKind::EncryptedFile,
        SecretBackendType::PortableEncryptedFile => StoreKind::PortableEncryptedFile,
        _ => if macos {
            StoreKind::MacOsKeychain
        } else {
            StoreKind::LibSecret
        },
    }
}

/// The result of a lookup that had a time budget: its own result, or the
/// time-out message when the budget ran out (`outcome` is `None`).
pub fn settle_timed_lookup(
    outcome: Option<Result<Option<String>, String>>,
    operation: &str,
    budget_secs: u64,
) -> (r: Result<Option<String>, String>)
    ensures
        match outcome {
            Some(x) => r == x,
            None => r matches Err(m) && m@ == crate::vault::backend::timed_out_message(
                operation@,
                budget_secs as nat,
            ),
        },
{
    match outcome {
        Some(x) => x,
        None => Err(crate::vault::backend::vault_op_timed_out(operation, budget_secs)),
    }
}

} // verus!
