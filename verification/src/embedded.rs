//! External FreeRDP sessions: choosing the client, reading its failures, and
//! watching the first moments after it was started.

use vstd::prelude::*;

use crate::scan::{
    after_last, before_first, char_views, find_first_with, find_last, find_last_with, first_with,
    last_index, last_index_of, last_with, lines, lines_of, span,
};
use crate::text::{
    chars_of, contains_chars, has_substr, is_ws, string_from_chars, string_of, trim, trim_bounds,
};
use crate::vault::keys::views;

verus! {

/// Why an embedded or external session could not be started.
#[derive(Debug, Clone, PartialEq, Eq)]
pub enum EmbeddingError {
    /// Embedding is not supported on Wayland for the protocol.
    WaylandNotSupported {
        /// The protocol that cannot be embedded.
        protocol: String,
    },
    /// No window id to embed into.
    WindowIdNotAvailable,
    /// The client process could not be started.
    ProcessStartFailed(String),
    /// The client exited.
    ClientExited {
        /// Its exit code.
        code: i32,
    },
}

/// The text of an [`EmbeddingError`].
pub open spec fn embedding_error_text(e: EmbeddingError) -> Seq<char> {
    match e {
        EmbeddingError::WaylandNotSupported { protocol } => "Embedding not supported on Wayland for "@
            + protocol@,
        EmbeddingError::WindowIdNotAvailable => "Failed to get window ID for embedding"@,
        EmbeddingError::ProcessStartFailed(m) => "Failed to start client process: "@ + m@,
        EmbeddingError::ClientExited { code } => "Client exited with code "@ + signed_decimal(
            code as int,
        ),
    }
}

/// `n.to_string()` for a signed integer.
pub open spec fn signed_decimal(n: int) -> Seq<char> {
    if n < 0 {
        "-"@ + crate::text::decimal((-n) as nat)
    } else {
        crate::text::decimal(n as nat)
    }
}

impl EmbeddingError {
    /// The error's message (its `Display` text).
    pub fn message(&self) -> (m: String)
        ensures
            m@ == embedding_error_text(*self),
    {
        match self {
            EmbeddingError::WaylandNotSupported { protocol } => {
                let mut m = String::from_str("Embedding not supported on Wayland for ");
                m.append(protocol.as_str());
                m
            },
            EmbeddingError::WindowIdNotAvailable => String::from_str(
                "Failed to get window ID for embedding",
            ),
            EmbeddingError::ProcessStartFailed(s) => {
                let mut m = String::from_str("Failed to start client process: ");
                m.append(s.as_str());
                m
            },
            EmbeddingError::ClientExited { code } => {
                let mut m = String::from_str("Client exited with code ");
                let c = *code;
                if c < 0 {
                    m.append("-");
                    let mag: u64 = if c == i32::MIN {
                        2147483648u64
                    } else {
                        (-c) as u64
                    };
                    let d = crate::text::decimal_string(mag);
                    m.append(d.as_str());
                } else {
                    let d = crate::text::decimal_string(c as u64);
                    m.append(d.as_str());
                }
                m
            },
        }
    }
}

/// Sigils an option carries on the FreeRDP command line.
pub open spec fn is_sigil(c: char) -> bool {
    c == '-' || c == '+' || c == '/'
}

/// `n` leading characters of `s` are sigils, and the next one is not.
pub open spec fn is_sigil_run(s: Seq<char>, n: int) -> bool {
    0 <= n <= s.len() && (n == s.len() || !is_sigil(s[n])) && forall|i: int|
        0 <= i < n ==> is_sigil(#[trigger] s[i])
}

/// `s.trim_start_matches(['-', '+', '/'])`.
pub open spec fn drop_sigils(s: Seq<char>) -> Seq<char> {
    s.subrange(choose|n: int| is_sigil_run(s, n), s.len() as int)
}

/// The option named in the line that reports "Unexpected keyword": the
/// content of the line's last `[...]`, when it starts with a sigil, without
/// its sigils and surrounding whitespace.
pub open spec fn rejected_option(stderr: Seq<char>) -> Option<Seq<char>> {
    match first_with(lines(stderr), "Unexpected keyword"@) {
        None => None,
        Some(line) => {
            let k = last_index_of(line, '[');
            if k < 0 {
                None
            } else {
                let inner = before_first(line.subrange(k + 1, line.len() as int), ']');
                if inner.len() == 0 || !is_sigil(inner[0]) {
                    None
                } else {
                    let name = trim(drop_sigils(inner));
                    if name.len() == 0 {
                        None
                    } else {
                        Some(name)
                    }
                }
            }
        },
    }
}

/// The message for an option the client rejected.
pub open spec fn rejected_option_message(option: Seq<char>) -> Seq<char> {
    "The installed FreeRDP client rejected the option '"@ + option
        + "'. Your FreeRDP version may be too old for it; update FreeRDP or report this at the RustConn issue tracker."@
}

/// The user-facing message for FreeRDP's error output.
pub open spec fn freerdp_error_message(stderr: Seq<char>) -> Seq<char> {
    if has_substr(stderr, "Unexpected keyword"@) {
        match rejected_option(stderr) {
            Some(option) => rejected_option_message(option),
            None => "The installed FreeRDP client rejected one of the connection options. Your FreeRDP version may be too old; update FreeRDP or report this at the RustConn issue tracker."@,
        }
    } else if has_substr(stderr, "certificate not trusted"@) || has_substr(
        stderr,
        "ERRCONNECT_TLS_CONNECT_FAILED"@,
    ) {
        if has_substr(stderr, "NEW HOST IDENTIFICATION"@) || has_substr(stderr, "has changed"@) {
            "RDP certificate has changed. Enable 'Ignore Certificate' or accept the new certificate."@
        } else {
            "TLS certificate verification failed. Enable 'Ignore Certificate' in connection settings."@
        }
    } else if has_substr(stderr, "ERRCONNECT_CONNECT_CANCELLED"@) || has_substr(
        stderr,
        "nla_client_setup_identity"@,
    ) {
        "NLA authentication failed. Check username/password or disable NLA."@
    } else if has_substr(stderr, "ERRCONNECT_CONNECT_TRANSPORT_FAILED"@) {
        "Connection refused. Check host and port."@
    } else if has_substr(stderr, "ERRCONNECT_DNS_NAME_NOT_FOUND"@) {
        "Host not found. Check the hostname."@
    } else {
        match last_with(lines(stderr), "[ERROR]"@) {
            Some(line) => trim(after_last(line, "]: "@)),
            None => "FreeRDP exited with error (exit code non-zero)"@,
        }
    }
}

/// What an FreeRDP process looks like at one tick of the early-failure
/// watch.
#[derive(Debug, Clone, Copy, PartialEq, Eq, Structural)]
pub enum ChildState {
    /// The process is no longer held (the user disconnected).
    Gone,
    /// Still running.
    Running,
    /// Exited successfully.
    ExitedOk,
    /// Exited with a failure status.
    ExitedFailed,
    /// Its status could not be read.
    Unknown,
}

/// What the early-failure watch does at one tick.
#[derive(Debug, Clone, Copy, PartialEq, Eq, Structural)]
pub enum WatchAction {
    /// Look again at the next tick.
    Continue,
    /// Stop watching; nothing to report.
    Stop,
    /// Stop the client and ask the user about the changed certificate.
    AskAboutCertificate,
    /// Report the client's error output as an early failure.
    ReportFailure,
    /// The session survived the early window: hand it over as connected.
    Connected,
}

/// Ticks (of 250 ms) the watch waits before it calls a session connected.
pub const EARLY_FAILURE_TICKS: u32 = 6;

/// The watch's decision at tick number `ticks` (counted from one).
pub open spec fn watch_step_spec(ticks: u32, child: ChildState, certificate_changed: bool) -> WatchAction {
    match child {
        ChildState::Gone => WatchAction::Stop,
        _ => if certificate_changed {
            WatchAction::AskAboutCertificate
        } else {
            match child {
                ChildState::ExitedFailed => WatchAction::ReportFailure,
                ChildState::ExitedOk => WatchAction::Stop,
                ChildState::Running => if ticks >= EARLY_FAILURE_TICKS {
                    WatchAction::Connected
                } else {
                    WatchAction::Continue
                },
                _ => WatchAction::Stop,
            }
        },
    }
}

/// `s.to_uppercase()`: the upper-case form of `s` under Unicode's case
/// mapping.
pub uninterp spec fn uppercase_of(s: Seq<char>) -> Seq<char>;

/// `str::to_uppercase`. Its result is named by [`uppercase_of`]; the
/// Unicode case tables that decide it are not restated.
#[verifier::external_body]
fn to_uppercase(s: &str) -> (u: String)
    ensures
        u@ == uppercase_of(s@),
{
    s.to_uppercase()
}

/// The status line of a session tab: the protocol in capitals, the
/// connection's name, and where the session shows.
pub open spec fn session_status_text(
    upper_protocol: Seq<char>,
    connection_name: Seq<char>,
    is_embedded: bool,
) -> Seq<char> {
    upper_protocol + " session - "@ + connection_name + if is_embedded {
        " (embedded)"@
    } else {
        " (external window)"@
    }
}

/// The status line of a session tab, from the protocol already in capitals.
pub fn session_status_line(upper_protocol: &str, connection_name: &str, is_embedded: bool) -> (s:
    String)
    ensures
        s@ == session_status_text(upper_protocol@, connection_name@, is_embedded),
{
    let mut s = upper_protocol.to_owned();
    s.append(" session - ");
    s.append(connection_name);
    if is_embedded {
        s.append(" (embedded)");
    } else {
        s.append(" (external window)");
    }
    s
}

/// What a new session tab starts with: whether the session is drawn inside
/// the tab, and the status line it shows.
#[derive(Debug)]
pub struct SessionTabSetup {
    /// The session is drawn inside the tab; otherwise it runs in a window of
    /// its own and the tab shows a page saying so.
    pub is_embedded: bool,
    /// The tab's status line.
    pub status: String,
}

/// The setup of a new RDP/VNC session tab. A session is embedded unless the
/// caller forces an external window or the display server cannot embed.
pub fn session_tab_setup(
    connection_name: &str,
    protocol: &str,
    force_external: bool,
    supports_embedding: bool,
) -> (t: SessionTabSetup)
    ensures
        t.is_embedded == (!force_external && supports_embedding),
        t.status@ == session_status_text(uppercase_of(protocol@), connection_name@, t.is_embedded),
{
    let is_embedded = !force_external && supports_embedding;
    let upper = to_uppercase(protocol);
    let status = session_status_line(upper.as_str(), connection_name, is_embedded);
    SessionTabSetup { is_embedded, status }
}

/// Launches of external FreeRDP clients.
pub struct RdpLauncher;

impl RdpLauncher {
    /// The clients tried for an external session, in order.
    pub open spec fn external_candidates() -> Seq<Seq<char>> {
        seq!["sdl-freerdp3"@, "sdl-freerdp"@, "xfreerdp3"@, "xfreerdp"@, "freerdp"@]
    }

    /// The client binary for an external session: the first candidate that
    /// is installed, else the executable inside a macOS application bundle
    /// when one was found.
    pub fn find_freerdp_binary(installed: &Vec<String>, macos_bundle_binary: Option<String>) -> (r:
        Option<String>)
        ensures
            match crate::embedded_rdp::detect::first_installed(
                Self::external_candidates(),
                views(installed@),
            ) {
                Some(c) => r matches Some(s) && s@ == c,
                None => r == macos_bundle_binary,
            },
    {
        let mut cands: Vec<String> = Vec::new();
        cands.push(String::from_str("sdl-freerdp3"));
        cands.push(String::from_str("sdl-freerdp"));
        cands.push(String::from_str("xfreerdp3"));
        cands.push(String::from_str("xfreerdp"));
        cands.push(String::from_str("freerdp"));
        assert(views(cands@) =~= Self::external_candidates());
        match crate::embedded_rdp::detect::pick_first(&cands, installed) {
            Some(s) => Some(s),
            None => macos_bundle_binary,
        }
    }

    /// The error when no FreeRDP client is installed.
    pub fn client_not_found() -> (e: EmbeddingError)
        ensures
            e matches EmbeddingError::ProcessStartFailed(m)
                && m@ == "FreeRDP client not found. Install xfreerdp, sdl-freerdp3, sdl-freerdp, or xfreerdp3."@,
    {
        EmbeddingError::ProcessStartFailed(
            String::from_str(
                "FreeRDP client not found. Install xfreerdp, sdl-freerdp3, sdl-freerdp, or xfreerdp3.",
            ),
        )
    }

    /// The early-failure watch's decision at one tick.
    pub fn watch_step(ticks: u32, child: ChildState, certificate_changed: bool) -> (a: WatchAction)
        ensures
            a == watch_step_spec(ticks, child, certificate_changed),
    {
        match child {
            ChildState::Gone => WatchAction::Stop,
            _ => if certificate_changed {
                WatchAction::AskAboutCertificate
            } else {
                match child {
                    ChildState::ExitedFailed => WatchAction::ReportFailure,
                    ChildState::ExitedOk => WatchAction::Stop,
                    ChildState::Running => if ticks >= EARLY_FAILURE_TICKS {
                        WatchAction::Connected
                    } else {
                        WatchAction::Continue
                    },
                    _ => WatchAction::Stop,
                }
            },
        }
    }

    /// The option FreeRDP rejected, from its "Unexpected keyword" report.
    ///
    /// FreeRDP prints `Failed at index N [-<option>]: Unexpected keyword`;
    /// the option is in the last `[...]` of the line (the log prefix has
    /// brackets of its own), carried with a leading `-`, `+` or `/`.
    pub fn rejected_freerdp_option(stderr: &str) -> (r: Option<String>)
        ensures
            match rejected_option(stderr@) {
                Some(o) => r matches Some(s) && s@ == o,
                None => r is None,
            },
    {
        let text = chars_of(stderr);
        let ls = lines_of(&text);
        let pat = chars_of("Unexpected keyword");
        let idx = match find_first_with(&ls, &pat) {
            Some(i) => i,
            None => return None,
        };
        let line = &ls[idx];
        let ghost lv = line@;
        let k = match last_index(line, '[') {
            Some(k) => k,
            None => return None,
        };
        let line_len = line.len();
        assert(k < line_len);
        let after = {
            let mut v: Vec<char> = Vec::new();
            let mut i: usize = k + 1;
            while i < line.len()
                invariant
                    k + 1 <= i <= lv.len(),
                    lv == line@,
                    v@ == lv.subrange(k + 1, i as int),
                decreases lv.len() - i,
            {
                v.push(line[i]);
                i = i + 1;
                assert(v@ =~= lv.subrange(k + 1, i as int));
            }
            v
        };
        let n = span(&after, ']');
        let ghost inner = after@.subrange(0, n as int);
        if n == 0 || !(after[0] == '-' || after[0] == '+' || after[0] == '/') {
            return None;
        }
        let mut m: usize = 0;
        while m < n && (after[m] == '-' || after[m] == '+' || after[m] == '/')
            invariant
                m <= n <= after@.len(),
                forall|i: int| 0 <= i < m ==> is_sigil(#[trigger] inner[i]),
                inner == after@.subrange(0, n as int),
            decreases n - m,
        {
            m = m + 1;
        }
        proof {
            assert(is_sigil_run(inner, m as int));
            let c = choose|c: int| is_sigil_run(inner, c);
            assert(is_sigil_run(inner, c));
            if c < m {
                assert(is_sigil(inner[c]));
            } else if c > m {
                assert(is_sigil(inner[m as int]));
            }
            assert(drop_sigils(inner) =~= after@.subrange(m as int, n as int));
        }
        let mut rest: Vec<char> = Vec::new();
        let mut i: usize = m;
        while i < n
            invariant
                m <= i <= n <= after@.len(),
                rest@ == after@.subrange(m as int, i as int),
            decreases n - i,
        {
            rest.push(after[i]);
            i = i + 1;
            assert(rest@ =~= after@.subrange(m as int, i as int));
        }
        let (lo, hi) = trim_bounds(&rest);
        if lo == hi {
            return None;
        }
        Some(string_from_chars(&rest, lo, hi))
    }

    /// A user-facing message for FreeRDP's error output.
    ///
    /// An option the client does not know ("Unexpected keyword") is
    /// reported as a client/argument mismatch, naming the option when
    /// FreeRDP did; certificate, authentication, refused-connection and
    /// unknown-host failures get fixed advice; anything else yields the
    /// message of the last `[ERROR]` line, or a generic text.
    pub fn parse_freerdp_error(stderr: &str) -> (m: String)
        ensures
            m@ == freerdp_error_message(stderr@),
    {
        if crate::text::str_contains(stderr, "Unexpected keyword") {
            return match Self::rejected_freerdp_option(stderr) {
                Some(option) => {
                    let mut m = String::from_str(
                        "The installed FreeRDP client rejected the option '",
                    );
                    m.append(option.as_str());
                    m.append(
                        "'. Your FreeRDP version may be too old for it; update FreeRDP or report this at the RustConn issue tracker.",
                    );
                    m
                },
                None => String::from_str(
                    "The installed FreeRDP client rejected one of the connection options. Your FreeRDP version may be too old; update FreeRDP or report this at the RustConn issue tracker.",
                ),
            };
        }
        if crate::text::str_contains(stderr, "certificate not trusted")
            || crate::text::str_contains(stderr, "ERRCONNECT_TLS_CONNECT_FAILED") {
            if crate::text::str_contains(stderr, "NEW HOST IDENTIFICATION")
                || crate::text::str_contains(stderr, "has changed") {
                return String::from_str(
                    "RDP certificate has changed. Enable 'Ignore Certificate' or accept the new certificate.",
                );
            }
            return String::from_str(
                "TLS certificate verification failed. Enable 'Ignore Certificate' in connection settings.",
            );
        }
        if crate::text::str_contains(stderr, "ERRCONNECT_CONNECT_CANCELLED")
            || crate::text::str_contains(stderr, "nla_client_setup_identity") {
            return String::from_str(
                "NLA authentication failed. Check username/password or disable NLA.",
            );
        }
        if crate::text::str_contains(stderr, "ERRCONNECT_CONNECT_TRANSPORT_FAILED") {
            return String::from_str("Connection refused. Check host and port.");
        }
        if crate::text::str_contains(stderr, "ERRCONNECT_DNS_NAME_NOT_FOUND") {
            return String::from_str("Host not found. Check the hostname.");
        }
        let text = chars_of(stderr);
        let ls = lines_of(&text);
        let pat = chars_of("[ERROR]");
        match find_last_with(&ls, &pat) {
            Some(i) => {
                let line = &ls[i];
                let sep = chars_of("]: ");
                proof {
                    reveal_strlit("]: ");
                }
                let line_len = line.len();
                let start: usize = match find_last(line, &sep) {
                    Some(k) => {
                        assert(k + 3 <= line_len);
                        k + 3
                    },
                    None => 0,
                };
                let tail_s = string_from_chars(line, start, line.len());
                let tail = chars_of(tail_s.as_str());
                assert(tail@ == after_last(line@, "]: "@));
                let (lo, hi) = trim_bounds(&tail);
                string_from_chars(&tail, lo, hi)
            },
            None => String::from_str("FreeRDP exited with error (exit code non-zero)"),
        }
    }
}

/// `a.eq_ignore_ascii_case(b)`: equal after ASCII lower-casing.
pub open spec fn eq_ignore_ascii_case(a: Seq<char>, b: Seq<char>) -> bool {
    a.len() == b.len() && forall|i: int|
        0 <= i < a.len() ==> crate::embedded_web::ascii_lower(#[trigger] a[i])
            == crate::embedded_web::ascii_lower(b[i])
}

/// An option FreeRDP's parser rejected is always explained: whenever its
/// output says "Unexpected keyword" (whatever other error codes it also
/// carries), the message is the client/argument mismatch advice that names
/// FreeRDP and the rejected option when one can be read, never the bare
/// parser string.
pub proof fn law_unexpected_keyword_is_explained(stderr: Seq<char>)
    requires
        has_substr(stderr, "Unexpected keyword"@),
    ensures
        crate::text::has_prefix(
            freerdp_error_message(stderr),
            "The installed FreeRDP client rejected "@,
        ),
        has_substr(freerdp_error_message(stderr), "FreeRDP"@),
        !eq_ignore_ascii_case(trim(freerdp_error_message(stderr)), "Unexpected keyword"@),
        match rejected_option(stderr) {
            Some(o) => has_substr(freerdp_error_message(stderr), o),
            None => true,
        },
{
    let head = "The installed FreeRDP client rejected "@;
    let m = freerdp_error_message(stderr);
    reveal_strlit("The installed FreeRDP client rejected ");
    reveal_strlit("FreeRDP");
    reveal_strlit("Unexpected keyword");
    match rejected_option(stderr) {
        Some(o) => {
            let full = "The installed FreeRDP client rejected the option '"@;
            let tail = "'. Your FreeRDP version may be too old for it; update FreeRDP or report this at the RustConn issue tracker."@;
            assert(m == full + o + tail);
            reveal_strlit("The installed FreeRDP client rejected the option '");
            reveal_strlit(
                "'. Your FreeRDP version may be too old for it; update FreeRDP or report this at the RustConn issue tracker.",
            );
            assert(m.subrange(0, head.len() as int) =~= head);
            assert(m.subrange(full.len() as int, (full.len() + o.len()) as int) =~= o);
            assert(crate::text::occurs_at(m, o, full.len() as int));
            assert(m.last() == tail.last());
        },
        None => {
            reveal_strlit(
                "The installed FreeRDP client rejected one of the connection options. Your FreeRDP version may be too old; update FreeRDP or report this at the RustConn issue tracker.",
            );
            assert(m.subrange(0, head.len() as int) =~= head);
        },
    }
    assert(m[0] == 'T');
    assert(m.subrange(14, 21) =~= "FreeRDP"@);
    assert(crate::text::occurs_at(m, "FreeRDP"@, 14));
    assert(!is_ws(m[0]));
    assert(!is_ws(m.last()));
    assert(trim(m) == m);
    assert(crate::embedded_web::ascii_lower(m[0]) != crate::embedded_web::ascii_lower("Unexpected keyword"@[0]));
}

} // verus!
