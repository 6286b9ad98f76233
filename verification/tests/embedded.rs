use rustconn::embedded::{
    session_status_line, session_tab_setup, ChildState, EmbeddingError, RdpLauncher, WatchAction,
};

const WINPR_UNEXPECTED_KEYWORD: &str = "[13:12:10] [1234:5678] [ERROR][com.winpr.commandline] - [log_error]: Failed at index 6 [-glyph-cache]: Unexpected keyword";

#[test]
fn unexpected_keyword_names_the_rejected_option() {
    let message = RdpLauncher::parse_freerdp_error(WINPR_UNEXPECTED_KEYWORD);
    assert!(message.contains("glyph-cache"), "{message}");
    assert!(message.contains("FreeRDP"), "{message}");
    assert!(
        !message.trim().eq_ignore_ascii_case("Unexpected keyword"),
        "the opaque winpr string must be replaced: {message}"
    );
}

#[test]
fn extracts_option_from_the_last_bracket_not_the_log_prefix() {
    assert_eq!(
        RdpLauncher::rejected_freerdp_option(WINPR_UNEXPECTED_KEYWORD).as_deref(),
        Some("glyph-cache"),
    );
}

#[test]
fn unexpected_keyword_without_bracketed_option_still_explains_it() {
    let stderr = "[ERROR][com.winpr.commandline]: Unexpected keyword";
    let message = RdpLauncher::parse_freerdp_error(stderr);
    assert!(message.contains("FreeRDP"), "{message}");
    assert!(
        RdpLauncher::rejected_freerdp_option(stderr).is_none(),
        "no bracketed option means no name to quote"
    );
}

#[test]
fn connection_errors_are_unaffected_by_the_new_branch() {
    let dns = "[ERROR][com.freerdp.core] ERRCONNECT_DNS_NAME_NOT_FOUND [0x0002000C]";
    assert!(RdpLauncher::parse_freerdp_error(dns).contains("Host not found"));
}

#[test]
fn each_known_failure_gets_its_advice() {
    assert_eq!(
        RdpLauncher::parse_freerdp_error("x certificate not trusted\nNEW HOST IDENTIFICATION"),
        "RDP certificate has changed. Enable 'Ignore Certificate' or accept the new certificate."
    );
    assert_eq!(
        RdpLauncher::parse_freerdp_error("ERRCONNECT_TLS_CONNECT_FAILED"),
        "TLS certificate verification failed. Enable 'Ignore Certificate' in connection settings."
    );
    assert_eq!(
        RdpLauncher::parse_freerdp_error("nla_client_setup_identity failed"),
        "NLA authentication failed. Check username/password or disable NLA."
    );
    assert_eq!(
        RdpLauncher::parse_freerdp_error("ERRCONNECT_CONNECT_TRANSPORT_FAILED"),
        "Connection refused. Check host and port."
    );
}

#[test]
fn the_last_error_line_is_the_fallback() {
    let stderr = "[ERROR][a]: first problem\r\ninfo\n[ERROR][b]: x]: second problem  \n";
    assert_eq!(RdpLauncher::parse_freerdp_error(stderr), "second problem");
    assert_eq!(
        RdpLauncher::parse_freerdp_error("nothing useful"),
        "FreeRDP exited with error (exit code non-zero)"
    );
}

#[test]
fn a_tag_without_sigil_is_not_an_option() {
    let stderr = "[ERROR][com.winpr.commandline]: Failed [com.winpr]: Unexpected keyword";
    assert_eq!(RdpLauncher::rejected_freerdp_option(stderr), None);
    let plus = "Failed at index 2 [+ clipboard ]: Unexpected keyword";
    assert_eq!(RdpLauncher::rejected_freerdp_option(plus).as_deref(), Some("clipboard"));
}

#[test]
fn the_binary_search_prefers_sdl_then_falls_back_to_the_bundle() {
    let installed = vec!["xfreerdp".to_string(), "sdl-freerdp".to_string()];
    assert_eq!(
        RdpLauncher::find_freerdp_binary(&installed, None).as_deref(),
        Some("sdl-freerdp")
    );
    assert_eq!(
        RdpLauncher::find_freerdp_binary(&Vec::new(), Some("/Applications/FreeRDP.app/x".to_string()))
            .as_deref(),
        Some("/Applications/FreeRDP.app/x")
    );
}

#[test]
fn the_early_failure_watch_decides_per_tick() {
    assert_eq!(RdpLauncher::watch_step(1, ChildState::Running, false), WatchAction::Continue);
    assert_eq!(RdpLauncher::watch_step(6, ChildState::Running, false), WatchAction::Connected);
    assert_eq!(RdpLauncher::watch_step(2, ChildState::Running, true), WatchAction::AskAboutCertificate);
    assert_eq!(RdpLauncher::watch_step(2, ChildState::ExitedFailed, false), WatchAction::ReportFailure);
    assert_eq!(RdpLauncher::watch_step(2, ChildState::Gone, true), WatchAction::Stop);
}

#[test]
fn embedding_errors_read_as_before() {
    assert_eq!(
        EmbeddingError::ClientExited { code: -2 }.message(),
        "Client exited with code -2"
    );
    assert_eq!(
        EmbeddingError::WaylandNotSupported { protocol: "vnc".to_string() }.message(),
        "Embedding not supported on Wayland for vnc"
    );
    match RdpLauncher::client_not_found() {
        EmbeddingError::ProcessStartFailed(m) => assert!(m.contains("FreeRDP client not found")),
        other => panic!("unexpected {other:?}"),
    }
}

#[test]
fn a_missing_window_id_reads_as_before() {
    assert_eq!(
        EmbeddingError::WindowIdNotAvailable.message(),
        "Failed to get window ID for embedding"
    );
    assert_eq!(
        EmbeddingError::ProcessStartFailed("spawn".to_string()).message(),
        "Failed to start client process: spawn"
    );
    assert_eq!(EmbeddingError::ClientExited { code: 3 }.message(), "Client exited with code 3");
}

#[test]
fn session_tab_embeds_when_the_display_server_can() {
    let t = session_tab_setup("Office PC", "rdp", false, true);
    assert!(t.is_embedded);
    assert_eq!(t.status, "RDP session - Office PC (embedded)");
}

#[test]
fn forced_external_session_tab_says_so() {
    let t = session_tab_setup("Lab", "vnc", true, true);
    assert!(!t.is_embedded);
    assert_eq!(t.status, "VNC session - Lab (external window)");
    let t = session_tab_setup("Lab", "spice", false, false);
    assert!(!t.is_embedded);
    assert_eq!(t.status, "SPICE session - Lab (external window)");
}

#[test]
fn session_status_line_keeps_the_protocol_as_given() {
    assert_eq!(session_status_line("RDP", "x", true), "RDP session - x (embedded)");
}
