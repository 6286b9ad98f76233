//! The decisions behind starting an RDP or VNC session: whether to ask for a
//! password, whether to store the one given, where to connect, and how the
//! session's state changes are answered.

use vstd::prelude::*;

use crate::text::has_substr;
use crate::vault::backend::{SecretBackendType, SecretSettings, is_kdbx};
use crate::vault::keys::{entry_path, strip_rustconn, with_protocol, views};
use crate::vault::model::{Connection, ConnectionGroup, PasswordSource};

verus! {

/// How a password-based start begins.
#[derive(Debug, Clone, Copy, PartialEq, Eq, Structural)]
pub enum StartPlan {
    /// Cached credentials exist: start with them.
    UseCached,
    /// Ask for the password.
    AskPassword,
    /// The connection is gone: do nothing.
    Abort,
}

/// How a password-based start begins: cached credentials win, a missing
/// connection stops it, otherwise the password dialog is shown.
pub fn plan_password_start(has_cached_credentials: bool, connection_exists: bool) -> (p: StartPlan)
    ensures
        has_cached_credentials ==> p == StartPlan::UseCached,
        !has_cached_credentials && !connection_exists ==> p == StartPlan::Abort,
        !has_cached_credentials && connection_exists ==> p == StartPlan::AskPassword,
{
    if has_cached_credentials {
        StartPlan::UseCached
    } else if connection_exists {
        StartPlan::AskPassword
    } else {
        StartPlan::Abort
    }
}

/// What follows the password dialog.
#[derive(Debug, Clone, Copy, PartialEq, Eq, Structural)]
pub enum DialogOutcome {
    /// The dialog was cancelled: clear the row's "connecting" status.
    ClearStatus,
    /// Start the session; store (and cache) the credentials first when `save`.
    Start {
        /// Whether the credentials are saved to the vault and cached.
        save: bool,
    },
}

/// What follows the password dialog. `answer` is `None` when the user
/// cancelled, else whether they asked to save; `source` is the connection's
/// password source when the connection still exists. Credentials are saved
/// when asked for or when the connection takes its password from the vault.
pub fn password_dialog_outcome(answer: Option<bool>, source: Option<PasswordSource>) -> (o: DialogOutcome)
    ensures
        answer is None ==> o == DialogOutcome::ClearStatus,
        answer matches Some(asked) ==> o == (DialogOutcome::Start {
            save: asked || source == Some(PasswordSource::Vault),
        }),
{
    match answer {
        None => DialogOutcome::ClearStatus,
        Some(asked) => {
            let from_vault = match source {
                Some(PasswordSource::Vault) => true,
                _ => false,
            };
            DialogOutcome::Start { save: asked || from_vault }
        },
    }
}

/// Whether a value holds a `${...}` reference that variable substitution
/// must resolve.
pub fn needs_substitution(input: &str) -> (b: bool)
    ensures
        b == has_substr(input@, "${"@),
{
    crate::text::str_contains(input, "${")
}

/// The SSH destination of a jump host: `user@host` when a user is set.
pub fn jump_destination(host: &str, username: Option<&str>) -> (d: String)
    ensures
        match username {
            Some(u) => d@ == u@ + "@"@ + host@,
            None => d@ == host@,
        },
{
    match username {
        Some(u) => {
            let mut d = u.to_owned();
            d.append("@");
            d.append(host);
            d
        },
        None => host.to_owned(),
    }
}

/// Where the client connects: through the local end of an SSH tunnel when
/// one was opened, else straight to the host.
pub fn effective_target(host: &str, port: u16, tunnel_local_port: Option<u16>) -> (t: (String, u16))
    ensures
        match tunnel_local_port {
            Some(p) => t.0@ == "127.0.0.1"@ && t.1 == p,
            None => t.0@ == host@ && t.1 == port,
        },
{
    match tunnel_local_port {
        Some(p) => (String::from_str("127.0.0.1"), p),
        None => (host.to_owned(), port),
    }
}

/// `v` rounded down to a multiple of four, and at least `min`.
pub open spec fn aligned_at_least(v: u32, min: u32) -> u32 {
    let a = (v / 4 * 4) as u32;
    if a >= min {
        a
    } else {
        min
    }
}

/// The resolution an embedded RDP session starts with, from the drawing
/// area's size: each side rounded down to a multiple of four, at least
/// 640 x 480.
pub fn initial_rdp_resolution(raw_width: u32, raw_height: u32) -> (r: (u32, u32))
    ensures
        r.0 == aligned_at_least(raw_width, 640),
        r.1 == aligned_at_least(raw_height, 480),
{
    let w = raw_width / 4 * 4;
    let h = raw_height / 4 * 4;
    (if w >= 640 { w } else { 640 }, if h >= 480 { h } else { 480 })
}

/// A value that is only passed on when it is not empty.
pub fn non_empty(s: &str) -> (r: Option<String>)
    ensures
        s@.len() == 0 ==> r is None,
        s@.len() > 0 ==> (r matches Some(x) && x@ == s@),
{
    if s.unicode_len() == 0 {
        None
    } else {
        Some(s.to_owned())
    }
}

/// The key a VNC password is looked up under in a KeePass database: the
/// entry path without its `RustConn/` root, then ` (vnc)`.
pub open spec fn vnc_lookup_key_spec(gs: Seq<ConnectionGroup>, c: Connection) -> Seq<char> {
    with_protocol(strip_rustconn(entry_path(gs, c)), "vnc"@)
}

/// The key a VNC password is looked up under in a KeePass database.
pub fn vnc_lookup_key(connection: &Connection, groups: &Vec<ConnectionGroup>) -> (k: String)
    ensures
        k@ == vnc_lookup_key_spec(groups@, *connection),
{
    let path = crate::vault::keys::build_entry_path(connection, groups);
    let name = crate::vault::keys::strip_rustconn_prefix(path.as_str());
    crate::vault::keys::append_protocol(name.as_str(), "vnc")
}

/// The KeePass database the password dialog is pre-filled from: only with
/// the KeePass integration on, a KeePass backend preferred and a database
/// configured.
pub fn kdbx_prefill_database(secrets: &SecretSettings) -> (p: Option<String>)
    ensures
        (secrets.kdbx_enabled && is_kdbx(secrets.preferred_backend)) ==> match secrets.kdbx_path {
            Some(x) => p matches Some(y) && y@ == x@,
            None => p is None,
        },
        !(secrets.kdbx_enabled && is_kdbx(secrets.preferred_backend)) ==> p is None,
{
    let kdbx_backend = match secrets.preferred_backend {
        SecretBackendType::KeePassXc | SecretBackendType::KdbxFile => true,
        _ => false,
    };
    if secrets.kdbx_enabled && kdbx_backend {
        match &secrets.kdbx_path {
            Some(x) => Some(x.clone()),
            None => None,
        }
    } else {
        None
    }
}

/// The state an RDP or VNC viewer reports.
#[derive(Debug, Clone, Copy, PartialEq, Eq, Structural)]
pub enum ViewerState {
    /// Disconnected.
    Disconnected,
    /// Connecting.
    Connecting,
    /// Connected.
    Connected,
    /// Failed.
    Error,
}

/// What the window does when a viewer's state changes.
#[derive(Debug, Clone, Copy, PartialEq, Eq, Structural)]
pub struct StateEffects {
    /// Stop a running recording of the session.
    pub stop_recording: bool,
    /// Mark the tab disconnected and count one session less on the row.
    pub mark_disconnected: bool,
    /// Record the end of the connection in the history.
    pub record_end: bool,
    /// Mark the tab connected and count one session more on the row.
    pub mark_connected: bool,
    /// Record the connection as failed in the history.
    pub record_failed: bool,
    /// Close the tab (a session that never connected).
    pub close_tab: bool,
    /// Show the row as failed.
    pub status_failed: bool,
}

/// No effect at all.
pub open spec fn no_effects() -> StateEffects {
    StateEffects {
        stop_recording: false,
        mark_disconnected: false,
        record_end: false,
        mark_connected: false,
        record_failed: false,
        close_tab: false,
        status_failed: false,
    }
}

/// An embedded RDP session's answer to a state change, given whether it
/// was ever connected; also whether it has been connected afterwards.
pub open spec fn rdp_state_spec(was_connected: bool, s: ViewerState) -> (bool, StateEffects) {
    match s {
        ViewerState::Disconnected => (
            was_connected,
            StateEffects {
                stop_recording: true,
                mark_disconnected: was_connected,
                record_end: true,
                ..no_effects()
            },
        ),
        ViewerState::Connected => (true, StateEffects { mark_connected: true, ..no_effects() }),
        ViewerState::Error => (
            was_connected,
            StateEffects {
                record_failed: true,
                close_tab: !was_connected,
                status_failed: true,
                ..no_effects()
            },
        ),
        ViewerState::Connecting => (was_connected, no_effects()),
    }
}

/// An embedded RDP session's answer to a state change.
///
/// A disconnect always stops recording and closes the history entry, but
/// only a session that had connected is marked disconnected and uncounted;
/// a failure before the first connection closes the tab.
pub fn on_rdp_state(was_connected: bool, s: ViewerState) -> (r: (bool, StateEffects))
    ensures
        r == rdp_state_spec(was_connected, s),
{
    let none = StateEffects {
        stop_recording: false,
        mark_disconnected: false,
        record_end: false,
        mark_connected: false,
        record_failed: false,
        close_tab: false,
        status_failed: false,
    };
    match s {
        ViewerState::Disconnected => (
            was_connected,
            StateEffects {
                stop_recording: true,
                mark_disconnected: was_connected,
                record_end: true,
                ..none
            },
        ),
        ViewerState::Connected => (true, StateEffects { mark_connected: true, ..none }),
        ViewerState::Error => (
            was_connected,
            StateEffects {
                record_failed: true,
                close_tab: !was_connected,
                status_failed: true,
                ..none
            },
        ),
        ViewerState::Connecting => (was_connected, none),
    }
}

/// A VNC session's answer to a state change: a disconnect stops recording,
/// marks the tab and closes the history entry; a connection marks it.
pub fn on_vnc_state(s: ViewerState) -> (e: StateEffects)
    ensures
        s == ViewerState::Disconnected ==> e == (StateEffects {
            stop_recording: true,
            mark_disconnected: true,
            record_end: true,
            ..no_effects()
        }),
        s == ViewerState::Connected ==> e == (StateEffects { mark_connected: true, ..no_effects() }),
        (s == ViewerState::Connecting || s == ViewerState::Error) ==> e == no_effects(),
{
    let none = StateEffects {
        stop_recording: false,
        mark_disconnected: false,
        record_end: false,
        mark_connected: false,
        record_failed: false,
        close_tab: false,
        status_failed: false,
    };
    match s {
        ViewerState::Disconnected => StateEffects {
            stop_recording: true,
            mark_disconnected: true,
            record_end: true,
            ..none
        },
        ViewerState::Connected => StateEffects { mark_connected: true, ..none },
        _ => none,
    }
}

/// A session marked connected stays so through any later state change, and
/// only a session that never connected has its tab closed on failure.
pub proof fn law_failure_closes_only_unconnected_tabs(was_connected: bool, s: ViewerState)
    ensures
        rdp_state_spec(was_connected, s).1.close_tab ==> !was_connected,
        was_connected ==> rdp_state_spec(was_connected, s).0,
        s == ViewerState::Connected ==> rdp_state_spec(was_connected, s).0,
{
}

} // verus!
